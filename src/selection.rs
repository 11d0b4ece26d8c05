use vstd::prelude::*;
use crate::comic::ComicError;
use crate::text::{chars_of, normalize_chars};
use crate::w5m::{W5MChapter, chapters_view};

verus! {

/// An inclusive range of chapter numbers, counted from the oldest chapter (1).
#[derive(Clone, Copy, Debug, PartialEq, Eq, Structural)]
pub struct DownloadRange {
    pub from: usize,
    pub to: usize,
}

impl DownloadRange {
    /// Whether the range addresses only chapters of a list of `len` chapters.
    pub open spec fn valid_for(&self, len: nat) -> bool {
        1 <= self.from <= self.to <= len
    }
}

/// The list index of chapter number `n` in a newest-first list of `len` chapters.
pub open spec fn index_of_number(len: int, n: int) -> int {
    len - n
}

/// Chapter number `n` of a newest-first list.
pub open spec fn by_number<A>(chapters: Seq<A>, n: int) -> A {
    chapters[index_of_number(chapters.len() as int, n)]
}

/// The range that optional bounds request over `len` chapters: the bounds default to the
/// first and the last chapter, and the range is rejected unless `1 <= from <= to <= len`.
pub fn resolve_range(from: Option<usize>, to: Option<usize>, len: usize) -> (r: Result<
    DownloadRange,
    ComicError,
>)
    ensures
        ({
            let f = match from {
                Some(f) => f,
                None => 1,
            };
            let t = match to {
                Some(t) => t,
                None => len,
            };
            &&& r is Ok <==> (1 <= f <= t <= len)
            &&& r matches Ok(g) ==> g.from == f && g.to == t
            &&& r matches Err(e) ==> e == ComicError::InvalidRange
        }),
{
    let f: usize = match from {
        Some(f) => f,
        None => 1,
    };
    let t: usize = match to {
        Some(t) => t,
        None => len,
    };
    if f < 1 || f > t || t > len {
        Err(ComicError::InvalidRange)
    } else {
        Ok(DownloadRange { from: f, to: t })
    }
}

/// The list index of chapter number `n` in a newest-first list of `len` chapters.
pub fn chapter_index(n: usize, len: usize) -> (r: usize)
    requires
        1 <= n <= len,
    ensures
        r == index_of_number(len as int, n as int),
        r < len,
{
    len - n
}

/// The chapters that `range` addresses, oldest first: entry `k` is chapter number
/// `range.from + k`.
pub fn select_chapters(chapters: &Vec<W5MChapter>, range: DownloadRange) -> (r: Vec<W5MChapter>)
    requires
        range.valid_for(chapters@.len()),
    ensures
        r@.len() == range.to - range.from + 1,
        forall|k: int|
            0 <= k < r@.len() ==> (#[trigger] r@[k])@ == by_number(
                chapters_view(chapters@),
                range.from + k,
            ),
{
    let len = chapters.len();
    let mut out: Vec<W5MChapter> = Vec::new();
    let count: usize = range.to - range.from + 1;
    let mut k: usize = 0;
    while k < count
        invariant
            range.valid_for(len as nat),
            len == chapters@.len(),
            count == range.to - range.from + 1,
            k <= count,
            out@.len() == k,
            forall|k: int|
                0 <= k < out@.len() ==> (#[trigger] out@[k])@ == by_number(
                    chapters_view(chapters@),
                    range.from + k,
                ),
        decreases count - k,
    {
        let i = chapter_index(range.from + k, len);
        out.push(chapters[i].duplicate());
        k = k + 1;
    }
    out
}

/// Chapter number 1 is the last entry of the list, chapter number `len` the first.
pub proof fn lemma_number_ends<A>(chapters: Seq<A>)
    requires
        chapters.len() > 0,
    ensures
        by_number(chapters, 1) == chapters.last(),
        by_number(chapters, chapters.len() as int) == chapters[0],
        forall|n: int|
            1 <= n <= chapters.len() ==> 0 <= #[trigger] index_of_number(chapters.len() as int, n)
                < chapters.len(),
{
}

/// What a line of user input asks for when choosing among `count` candidates.
#[derive(Clone, Copy, Debug, PartialEq, Eq, Structural)]
pub enum Choice {
    /// Stop choosing.
    Quit,
    /// The candidate at this index.
    Pick(usize),
    /// The input names no candidate; ask again.
    Retry,
}

pub open spec fn is_digit(c: char) -> bool {
    '0' <= c <= '9'
}

/// The number that a sequence of decimal digits denotes.
pub open spec fn digits_value(s: Seq<char>) -> nat
    decreases s.len(),
{
    if s.len() == 0 {
        0
    } else {
        digits_value(s.drop_last()) * 10 + (s.last() as nat - '0' as nat) as nat
    }
}

pub open spec fn all_digits(s: Seq<char>) -> bool {
    forall|i: int| 0 <= i < s.len() ==> is_digit(#[trigger] s[i])
}

/// `s` without one leading `+` sign, if it has one.
pub open spec fn unsigned_part(s: Seq<char>) -> Seq<char> {
    if s.len() > 0 && s[0] == '+' {
        s.drop_first()
    } else {
        s
    }
}

/// The choice that `input` (trimmed as a name is) denotes among `count` candidates:
/// `q` quits, the decimal index of a candidate (with an optional leading `+`) picks it,
/// anything else asks again.
pub open spec fn choice_of(input: Seq<char>, count: nat) -> Choice {
    let t = crate::text::normalized(input);
    let u = unsigned_part(t);
    if t == seq!['q'] {
        Choice::Quit
    } else if u.len() > 0 && all_digits(u) && digits_value(u) < count {
        Choice::Pick(digits_value(u) as usize)
    } else {
        Choice::Retry
    }
}

/// The decimal value of `s`, if `s` is a non-empty run of digits, after an optional
/// leading `+`, whose value is below `bound`.
fn bounded_decimal(s: &Vec<char>, bound: usize) -> (r: Option<usize>)
    ensures
        r matches Some(v) ==> unsigned_part(s@).len() > 0 && all_digits(unsigned_part(s@)) && v
            == digits_value(unsigned_part(s@)) && v < bound,
        r is None ==> !(unsigned_part(s@).len() > 0 && all_digits(unsigned_part(s@))
            && digits_value(unsigned_part(s@)) < bound),
{
    let start: usize = if s.len() > 0 && s[0] == '+' {
        1
    } else {
        0
    };
    let mut u: Vec<char> = Vec::new();
    let mut i: usize = start;
    while i < s.len()
        invariant
            start <= i <= s@.len(),
            start == 0 || start == 1,
            u@ == s@.subrange(start as int, i as int),
        decreases s@.len() - i,
    {
        assert(s@.subrange(start as int, i + 1) =~= s@.subrange(start as int, i as int).push(
            s@[i as int],
        ));
        u.push(s[i]);
        i = i + 1;
    }
    assert(u@ =~= unsigned_part(s@));
    digits_below(&u, bound)
}

/// The decimal value of `s`, if `s` is a non-empty run of digits whose value is below
/// `bound`.
fn digits_below(s: &Vec<char>, bound: usize) -> (r: Option<usize>)
    ensures
        r matches Some(v) ==> s@.len() > 0 && all_digits(s@) && v == digits_value(s@) && v
            < bound,
        r is None ==> !(s@.len() > 0 && all_digits(s@) && digits_value(s@) < bound),
{
    if s.len() == 0 || bound == 0 {
        return None;
    }
    let mut v: usize = 0;
    let mut i: usize = 0;
    while i < s.len()
        invariant
            i <= s@.len(),
            v < bound,
            all_digits(s@.take(i as int)),
            v == digits_value(s@.take(i as int)),
        decreases s@.len() - i,
    {
        let c = s[i];
        let ghost p = s@.take(i as int + 1);
        assert(p.drop_last() =~= s@.take(i as int));
        if !('0' <= c && c <= '9') {
            assert(!is_digit(s@[i as int]));
            return None;
        }
        let d: usize = (c as u32 - '0' as u32) as usize;
        assert(digits_value(p) == v * 10 + d);
        if d >= bound || v > (bound - 1 - d) / 10 {
            proof {
                assert(v * 10 + d >= bound) by (nonlinear_arith)
                    requires
                        d >= bound || v > (bound - 1 - d) / 10,
                        d <= 9,
                        bound >= 1,
                ;
                lemma_digits_prefix_le(s@, i as int + 1);
            }
            return None;
        }
        assert(v * 10 + d < bound) by (nonlinear_arith)
            requires
                v <= (bound - 1 - d) / 10,
                d <= 9,
                bound >= 1,
                d < bound,
        ;
        v = v * 10 + d;
        i = i + 1;
    }
    assert(s@.take(s@.len() as int) =~= s@);
    Some(v)
}

/// A value of a digit sequence is at least the value of any of its prefixes.
proof fn lemma_digits_prefix_le(s: Seq<char>, k: int)
    requires
        0 <= k <= s.len(),
        all_digits(s.take(k)),
    ensures
        all_digits(s) ==> digits_value(s.take(k)) <= digits_value(s),
    decreases s.len() - k,
{
    if k < s.len() && all_digits(s) {
        let p = s.take(k + 1);
        assert(p.drop_last() =~= s.take(k));
        lemma_digits_prefix_le(s, k + 1);
    } else if k == s.len() {
        assert(s.take(k) =~= s);
    }
}

/// How the candidate to work on is found among `count` search results: none is an
/// error, `get_first` takes the first, otherwise the user is asked (`None`).
pub fn choose_candidate(count: usize, get_first: bool) -> (r: Result<Option<usize>, ComicError>)
    ensures
        count == 0 ==> r == Err::<Option<usize>, _>(ComicError::NotFound),
        count > 0 && get_first ==> r == Ok::<_, ComicError>(Some(0usize)),
        count > 0 && !get_first ==> r == Ok::<_, ComicError>(None::<usize>),
{
    if count == 0 {
        Err(ComicError::NotFound)
    } else if get_first {
        Ok(Some(0))
    } else {
        Ok(None)
    }
}

/// The choice that the line `input` denotes among `count` candidates.
pub fn interpret_choice(input: &str, count: usize) -> (r: Choice)
    ensures
        r == choice_of(input@, count as nat),
{
    let t = normalize_chars(&chars_of(input));
    if t.len() == 1 && t[0] == 'q' {
        assert(t@ =~= seq!['q']);
        return Choice::Quit;
    }
    assert(t@ != seq!['q']);
    if count == 0 {
        return Choice::Retry;
    }
    match bounded_decimal(&t, count) {
        Some(v) => Choice::Pick(v),
        None => Choice::Retry,
    }
}

} // verus!
