use vstd::prelude::*;

use crate::glossary::ChapterGlossary;
use crate::text::{chars_of, trim, trimmed};

verus! {

/// Which of a chapter's two artifacts are already on disk.
#[derive(Debug, Clone, Copy, PartialEq, Eq, Structural)]
pub struct ChapterStatus {
    pub has_output: bool,
    pub has_glossary: bool,
}

impl ChapterStatus {
    pub open spec fn complete(&self) -> bool {
        self.has_output && self.has_glossary
    }

    pub fn is_complete(&self) -> (r: bool)
        ensures
            r == self.complete(),
    {
        self.has_output && self.has_glossary
    }
}

/// The index of the first chapter that lacks an artifact, or the number of chapters when
/// none does.
pub open spec fn first_incomplete(s: Seq<ChapterStatus>) -> nat
    decreases s.len(),
{
    if s.len() == 0 {
        0
    } else if !s[0].complete() {
        0
    } else {
        1 + first_incomplete(s.drop_first())
    }
}

proof fn lemma_first_incomplete_is(s: Seq<ChapterStatus>, k: int)
    requires
        0 <= k <= s.len(),
        forall|j: int| 0 <= j < k ==> #[trigger] s[j].complete(),
        k < s.len() ==> !s[k].complete(),
    ensures
        first_incomplete(s) == k,
    decreases s.len(),
{
    if s.len() > 0 && k > 0 {
        assert forall|j: int| 0 <= j < k - 1 implies #[trigger] s.drop_first()[j].complete() by {
            assert(s[j + 1].complete());
        }
        lemma_first_incomplete_is(s.drop_first(), k - 1);
    }
}

/// The chapter a run should start from: the first one whose output or snapshot is
/// missing, or the number of chapters when every one is complete.
pub fn suggested_resume_index(statuses: &Vec<ChapterStatus>) -> (r: usize)
    ensures
        r == first_incomplete(statuses@),
        r <= statuses@.len(),
        forall|j: int| 0 <= j < r ==> #[trigger] statuses@[j].complete(),
        r < statuses@.len() ==> !statuses@[r as int].complete(),
{
    let mut i: usize = 0;
    while i < statuses.len()
        invariant
            i <= statuses@.len(),
            forall|j: int| 0 <= j < i ==> #[trigger] statuses@[j].complete(),
        decreases statuses@.len() - i,
    {
        if !statuses[i].is_complete() {
            proof {
                lemma_first_incomplete_is(statuses@, i as int);
            }
            return i;
        }
        i = i + 1;
    }
    proof {
        lemma_first_incomplete_is(statuses@, i as int);
    }
    i
}

/// When chapters before `k` have both artifacts and chapter `k` has neither, a run is
/// suggested to resume exactly at `k`.
pub proof fn resume_at_first_missing(statuses: Seq<ChapterStatus>, k: int)
    requires
        0 <= k < statuses.len(),
        forall|j: int| 0 <= j < k ==> #[trigger] statuses[j].complete(),
        !statuses[k].has_output,
        !statuses[k].has_glossary,
    ensures
        first_incomplete(statuses) == k,
{
    lemma_first_incomplete_is(statuses, k);
}

/// When every chapter has both artifacts, the suggested index is the number of chapters:
/// nothing is left to do.
pub proof fn all_complete_means_done(statuses: Seq<ChapterStatus>)
    requires
        forall|j: int| 0 <= j < statuses.len() ==> #[trigger] statuses[j].complete(),
    ensures
        first_incomplete(statuses) == statuses.len(),
{
    lemma_first_incomplete_is(statuses, statuses.len() as int);
}

pub open spec fn is_digit(c: char) -> bool {
    '0' <= c && c <= '9'
}

/// The value of a run of decimal digits.
pub open spec fn digits_value(s: Seq<char>) -> nat
    decreases s.len(),
{
    if s.len() == 0 {
        0
    } else {
        digits_value(s.drop_last()) * 10 + ((s.last() as u32) - ('0' as u32)) as nat
    }
}

/// A text without its leading plus sign, if it has one.
pub open spec fn unsigned_part(s: Seq<char>) -> Seq<char> {
    if s.len() > 0 && s[0] == '+' {
        s.drop_first()
    } else {
        s
    }
}

/// What `str::parse::<usize>` yields: an optional `+`, then one or more ASCII digits whose
/// value fits in a `usize`; nothing otherwise.
pub open spec fn decimal_value(s: Seq<char>) -> Option<usize> {
    let d = unsigned_part(s);
    if d.len() > 0 && (forall|i: int| 0 <= i < d.len() ==> is_digit(#[trigger] d[i]))
        && digits_value(d) <= usize::MAX {
        Some(digits_value(d) as usize)
    } else {
        None
    }
}

proof fn lemma_prefix_value_le(d: Seq<char>, j: int)
    requires
        0 <= j <= d.len(),
        forall|i: int| 0 <= i < d.len() ==> is_digit(#[trigger] d[i]),
    ensures
        digits_value(d.subrange(0, j)) <= digits_value(d),
    decreases d.len(),
{
    if j == d.len() {
        assert(d.subrange(0, j) =~= d);
    } else {
        let e = d.drop_last();
        assert(e.subrange(0, j) =~= d.subrange(0, j));
        assert forall|i: int| 0 <= i < e.len() implies is_digit(#[trigger] e[i]) by {
            assert(is_digit(d[i]));
        }
        lemma_prefix_value_le(e, j);
    }
}

/// Reads a decimal number the way `str::parse::<usize>` does.
pub fn parse_decimal(s: &str) -> (r: Option<usize>)
    ensures
        r == decimal_value(s@),
{
    let cs = chars_of(s);
    let n = cs.len();
    let mut start: usize = 0;
    if n > 0 && cs[0] == '+' {
        start = 1;
    }
    let ghost d = unsigned_part(cs@);
    assert(d =~= cs@.subrange(start as int, n as int));
    if start == n {
        return None;
    }
    let mut i: usize = start;
    let mut v: usize = 0;
    assert(cs@.subrange(start as int, start as int) =~= Seq::<char>::empty());
    while i < n
        invariant
            start < n == cs@.len(),
            cs@ == s@,
            d == unsigned_part(s@),
            start <= i <= n,
            d == cs@.subrange(start as int, n as int),
            forall|j: int| start <= j < i ==> is_digit(#[trigger] cs@[j]),
            v as nat == digits_value(cs@.subrange(start as int, i as int)),
        decreases n - i,
    {
        let c = cs[i];
        if !('0' <= c && c <= '9') {
            assert(!is_digit(d[i - start]));
            return None;
        }
        let dig = ((c as u32) - ('0' as u32)) as usize;
        let ghost next = cs@.subrange(start as int, i + 1);
        assert(next.drop_last() =~= cs@.subrange(start as int, i as int));
        assert(digits_value(next) == v * 10 + dig);
        if v > (usize::MAX - dig) / 10 {
            assert(v * 10 + dig > usize::MAX) by (nonlinear_arith)
                requires
                    v > (usize::MAX - dig) / 10,
                    dig <= 9,
            ;
            proof {
                if forall|j: int| 0 <= j < d.len() ==> is_digit(#[trigger] d[j]) {
                    assert(d.subrange(0, i + 1 - start) =~= next);
                    lemma_prefix_value_le(d, i + 1 - start);
                }
            }
            return None;
        }
        assert(v * 10 + dig <= usize::MAX) by (nonlinear_arith)
            requires
                v <= (usize::MAX - dig) / 10,
                dig <= 9,
        ;
        v = v * 10 + dig;
        i = i + 1;
    }
    assert(cs@.subrange(start as int, i as int) =~= d);
    assert forall|j: int| 0 <= j < d.len() implies is_digit(#[trigger] d[j]) by {
        assert(is_digit(cs@[start + j]));
    }
    Some(v)
}

/// What an operator asked for as the start of a run.
#[derive(Debug, Clone, Copy, PartialEq, Eq, Structural)]
pub enum StartRequest {
    /// Nothing was typed: take the suggested chapter.
    Suggested,
    /// A chapter number, counted from one.
    Number(usize),
    /// Something that is not a number.
    Invalid,
}

pub open spec fn start_request_of(input: Seq<char>) -> StartRequest {
    let t = trim(input);
    if t.len() == 0 {
        StartRequest::Suggested
    } else {
        match decimal_value(t) {
            Some(n) => StartRequest::Number(n),
            None => StartRequest::Invalid,
        }
    }
}

/// Reads an operator's answer to the question which chapter to start from.
pub fn read_start_request(input: &str) -> (r: StartRequest)
    ensures
        r == start_request_of(input@),
{
    let t = trimmed(input);
    let ts = t.as_str();
    if ts.is_empty() {
        StartRequest::Suggested
    } else {
        match parse_decimal(ts) {
            Some(n) => StartRequest::Number(n),
            None => StartRequest::Invalid,
        }
    }
}

/// The start a request picks: a chapter number in `1..=total` gives its index; anything
/// else falls back to the suggestion, which stops the run when it says that every chapter
/// is done.
pub open spec fn chosen_start(request: StartRequest, suggested: usize, total: usize) -> Option<
    usize,
> {
    match request {
        StartRequest::Number(n) if 1 <= n <= total => Some((n - 1) as usize),
        _ => if suggested < total {
            Some(suggested)
        } else {
            None
        },
    }
}

/// The chapter index to start from, or `None` when the run should not start.
pub fn choose_start(request: StartRequest, suggested: usize, total: usize) -> (r: Option<usize>)
    ensures
        r == chosen_start(request, suggested, total),
        r matches Some(i) ==> i < total,
{
    match request {
        StartRequest::Number(n) if 1 <= n && n <= total => Some(n - 1),
        _ => {
            if suggested < total {
                Some(suggested)
            } else {
                None
            }
        },
    }
}

/// The chapter whose snapshot seeds a run starting at `start`: the one just before it,
/// never `start` itself; none when the run starts at the first chapter.
pub fn seed_chapter(start: usize) -> (r: Option<usize>)
    ensures
        start == 0 ==> r is None,
        start > 0 ==> r == Some((start - 1) as usize),
        r != Some(start),
{
    if start == 0 {
        None
    } else {
        Some(start - 1)
    }
}

/// The snapshot a run starting at `start` begins with. `loaded` is the snapshot of the
/// chapter before `start`, if one was found; without it a run past the first chapter goes
/// on with an empty snapshot only when the operator agreed to, and otherwise does not start.
pub fn initial_glossary(
    start: usize,
    loaded: Option<ChapterGlossary>,
    accept_empty: bool,
) -> (r: Option<ChapterGlossary>)
    requires
        loaded matches Some(g) ==> g.wf(),
    ensures
        r matches Some(g) ==> g.wf(),
        start == 0 ==> (r matches Some(g) && g.terms@.len() == 0 && g.summary@.len() == 0),
        start > 0 && loaded is Some ==> r == loaded,
        start > 0 && loaded is None && accept_empty ==> (r matches Some(g) && g.terms@.len()
            == 0 && g.summary@.len() == 0),
        start > 0 && loaded is None && !accept_empty ==> r is None,
{
    if start == 0 {
        Some(ChapterGlossary::empty())
    } else {
        match loaded {
            Some(g) => Some(g),
            None => {
                if accept_empty {
                    Some(ChapterGlossary::empty())
                } else {
                    None
                }
            },
        }
    }
}

/// Whether an answer, white space aside, is the single letter `lower` or `upper`.
pub open spec fn answer_is(input: Seq<char>, lower: char, upper: char) -> bool {
    trim(input) == seq![lower] || trim(input) == seq![upper]
}

fn single_letter(input: &str, lower: char, upper: char) -> (r: bool)
    ensures
        r == answer_is(input@, lower, upper),
{
    let t = trimmed(input);
    let cs = chars_of(t.as_str());
    if cs.len() == 1 && (cs[0] == lower || cs[0] == upper) {
        assert(cs@ =~= seq![cs@[0]]);
        true
    } else {
        assert(cs@.len() == 1 ==> cs@ != seq![lower] ==> cs@[0] != lower);
        assert(cs@.len() == 1 ==> cs@ != seq![upper] ==> cs@[0] != upper);
        false
    }
}

/// Whether the operator agreed, with `y` in either case, to go on without the previous
/// chapter's snapshot.
pub fn is_confirmation(input: &str) -> (r: bool)
    ensures
        r == answer_is(input@, 'y', 'Y'),
{
    single_letter(input, 'y', 'Y')
}

/// Whether the operator asked, with `q` in either case, to stop between chapters.
pub fn is_quit(input: &str) -> (r: bool)
    ensures
        r == answer_is(input@, 'q', 'Q'),
{
    single_letter(input, 'q', 'Q')
}

/// The sequential run over the chapters from a start index: the snapshot of each chapter
/// is handed on as the seed of the next, and the first failure stops the run.
#[derive(Debug)]
pub struct RunLoop {
    pub next: usize,
    pub total: usize,
    pub current: ChapterGlossary,
    pub stopped: bool,
}

impl RunLoop {
    pub open spec fn wf(&self) -> bool {
        &&& self.next <= self.total
        &&& self.current.wf()
    }

    pub fn new(start: usize, total: usize, seed: ChapterGlossary) -> (r: RunLoop)
        requires
            start <= total,
            seed.wf(),
        ensures
            r.wf(),
            r.next == start,
            r.total == total,
            r.current == seed,
            !r.stopped,
    {
        RunLoop { next: start, total, current: seed, stopped: false }
    }

    /// The chapter to process next, if the run goes on.
    pub fn pending(&self) -> (r: Option<usize>)
        requires
            self.wf(),
        ensures
            r matches Some(i) ==> i == self.next && i < self.total,
            r is None <==> (self.stopped || self.next == self.total),
    {
        if self.stopped || self.next == self.total {
            None
        } else {
            Some(self.next)
        }
    }

    /// Records the outcome of the pending chapter: its snapshot becomes the seed of the
    /// next one; a failure stops the run and keeps the last good snapshot.
    pub fn chapter_done(&mut self, outcome: Option<ChapterGlossary>)
        requires
            old(self).wf(),
            !old(self).stopped,
            old(self).next < old(self).total,
            outcome matches Some(g) ==> g.wf(),
        ensures
            final(self).wf(),
            final(self).total == old(self).total,
            outcome matches Some(g) ==> (final(self).current == g && final(self).next == old(
                self,
            ).next + 1 && !final(self).stopped),
            outcome is None ==> (final(self).current == old(self).current && final(self).next
                == old(self).next && final(self).stopped),
    {
        match outcome {
            Some(g) => {
                self.current = g;
                self.next = self.next + 1;
            },
            None => {
                self.stopped = true;
            },
        }
    }

    /// Stops the run between chapters, at the operator's request.
    pub fn stop(&mut self)
        ensures
            final(self).stopped,
            final(self).next == old(self).next,
            final(self).total == old(self).total,
            final(self).current == old(self).current,
    {
        self.stopped = true;
    }
}

} // verus!
