use vstd::prelude::*;
use vstd::std_specs::iter::IteratorSpec;

verus! {

/// The characters of `s`, in order.
pub(crate) fn chars_of(s: &str) -> (r: Vec<char>)
    ensures
        r@ == s@,
{
    let mut it = s.chars();
    let mut out: Vec<char> = Vec::new();
    loop
        invariant
            out@ + it.remaining() == s@,
            it.decrease() is Some,
        ensures
            out@ == s@,
        decreases it.decrease()->0,
    {
        match it.next() {
            Some(c) => {
                out.push(c);
            },
            None => {
                assert(out@ =~= s@);
                break;
            },
        }
    }
    out
}

/// Relies on collecting characters into a `String`: the string of exactly these characters.
#[verifier::external_body]
pub(crate) fn string_of(cs: &Vec<char>) -> (r: String)
    ensures
        r@ == cs@,
{
    cs.iter().collect()
}

/// Characters with the Unicode `White_Space` property, which is what `char::is_whitespace`
/// and `str::trim` go by.
pub open spec fn is_space(c: char) -> bool {
    ||| c == '\t' || c == '\n' || c == '\u{0B}' || c == '\u{0C}' || c == '\r' || c == ' '
    ||| c == '\u{85}' || c == '\u{A0}' || c == '\u{1680}'
    ||| ('\u{2000}' <= c && c <= '\u{200A}')
    ||| c == '\u{2028}' || c == '\u{2029}' || c == '\u{202F}' || c == '\u{205F}'
    ||| c == '\u{3000}'
}

pub fn space_char(c: char) -> (r: bool)
    ensures
        r == is_space(c),
{
    c == '\t' || c == '\n' || c == '\u{0B}' || c == '\u{0C}' || c == '\r' || c == ' '
        || c == '\u{85}' || c == '\u{A0}' || c == '\u{1680}' || ('\u{2000}' <= c && c
        <= '\u{200A}') || c == '\u{2028}' || c == '\u{2029}' || c == '\u{202F}' || c
        == '\u{205F}' || c == '\u{3000}'
}

/// `s` without its leading white space.
pub open spec fn trim_start(s: Seq<char>) -> Seq<char>
    decreases s.len(),
{
    if s.len() > 0 && is_space(s[0]) {
        trim_start(s.drop_first())
    } else {
        s
    }
}

/// `s` without its trailing white space.
pub open spec fn trim_end(s: Seq<char>) -> Seq<char>
    decreases s.len(),
{
    if s.len() > 0 && is_space(s.last()) {
        trim_end(s.drop_last())
    } else {
        s
    }
}

/// `s` without white space at either end.
pub open spec fn trim(s: Seq<char>) -> Seq<char> {
    trim_end(trim_start(s))
}

/// `s` with every leading copy of the non-empty marker `p` removed.
pub open spec fn strip_leading(s: Seq<char>, p: Seq<char>) -> Seq<char>
    decreases s.len(),
{
    if p.len() > 0 && p.len() <= s.len() && s.subrange(0, p.len() as int) == p {
        strip_leading(s.subrange(p.len() as int, s.len() as int), p)
    } else {
        s
    }
}

/// `s` with every trailing copy of the non-empty marker `p` removed.
pub open spec fn strip_trailing(s: Seq<char>, p: Seq<char>) -> Seq<char>
    decreases s.len(),
{
    if p.len() > 0 && p.len() <= s.len() && s.subrange(s.len() - p.len(), s.len() as int) == p {
        strip_trailing(s.subrange(0, s.len() - p.len()), p)
    } else {
        s
    }
}

pub open spec fn fence() -> Seq<char> {
    seq!['`', '`', '`']
}

pub open spec fn json_fence() -> Seq<char> {
    seq!['`', '`', '`', 'j', 's', 'o', 'n']
}

/// A model reply made ready for structural decoding: trimmed, then stripped of the
/// opening fences (with and without a `json` tag) and of the closing fences.
pub open spec fn sanitized(s: Seq<char>) -> Seq<char> {
    strip_trailing(strip_leading(strip_leading(trim(s), json_fence()), fence()), fence())
}

/// Every literal backslash-n pair, read from left to right, becomes a line break.
pub open spec fn unescaped(s: Seq<char>) -> Seq<char>
    decreases s.len(),
{
    if s.len() == 0 {
        s
    } else if s.len() >= 2 && s[0] == '\\' && s[1] == 'n' {
        seq!['\n'] + unescaped(s.subrange(2, s.len() as int))
    } else {
        seq![s[0]] + unescaped(s.drop_first())
    }
}

/// Whether `p` occurs in `cs` starting at `at`.
fn occurs_at(cs: &Vec<char>, at: usize, end: usize, p: &Vec<char>) -> (r: bool)
    requires
        at <= end <= cs@.len(),
    ensures
        r == (p@.len() <= end - at && cs@.subrange(at as int, at + p@.len()) == p@),
{
    if p.len() > end - at {
        return false;
    }
    let mut i: usize = 0;
    while i < p.len()
        invariant
            p@.len() <= end - at,
            at <= end <= cs@.len(),
            i <= p@.len(),
            forall|j: int| 0 <= j < i ==> cs@[at + j] == p@[j],
        decreases p@.len() - i,
    {
        if cs[at + i] != p[i] {
            assert(cs@.subrange(at as int, at + p@.len())[i as int] != p@[i as int]);
            return false;
        }
        i = i + 1;
    }
    assert(cs@.subrange(at as int, at + p@.len()) =~= p@);
    true
}

/// Moves `lo` past every leading copy of `p` within `cs[lo..hi]`.
fn skip_leading(cs: &Vec<char>, lo: usize, hi: usize, p: &Vec<char>) -> (r: usize)
    requires
        lo <= hi <= cs@.len(),
    ensures
        lo <= r <= hi,
        cs@.subrange(r as int, hi as int) == strip_leading(
            cs@.subrange(lo as int, hi as int),
            p@,
        ),
{
    if p.len() == 0 {
        return lo;
    }
    let mut i: usize = lo;
    while occurs_at(cs, i, hi, p)
        invariant
            lo <= i <= hi <= cs@.len(),
            p@.len() > 0,
            strip_leading(cs@.subrange(i as int, hi as int), p@) == strip_leading(
                cs@.subrange(lo as int, hi as int),
                p@,
            ),
        decreases hi - i,
    {
        let ghost s = cs@.subrange(i as int, hi as int);
        assert(s.subrange(0, p@.len() as int) =~= cs@.subrange(i as int, i + p@.len()));
        assert(s.subrange(p@.len() as int, s.len() as int) =~= cs@.subrange(
            i + p@.len(),
            hi as int,
        ));
        i = i + p.len();
    }
    let ghost s = cs@.subrange(i as int, hi as int);
    assert(p@.len() <= s.len() ==> s.subrange(0, p@.len() as int) =~= cs@.subrange(
        i as int,
        i + p@.len(),
    ));
    i
}

/// Moves `hi` before every trailing copy of `p` within `cs[lo..hi]`.
pub(crate) fn skip_trailing(cs: &Vec<char>, lo: usize, hi: usize, p: &Vec<char>) -> (r: usize)
    requires
        lo <= hi <= cs@.len(),
    ensures
        lo <= r <= hi,
        cs@.subrange(lo as int, r as int) == strip_trailing(
            cs@.subrange(lo as int, hi as int),
            p@,
        ),
{
    if p.len() == 0 {
        return hi;
    }
    let mut j: usize = hi;
    while p.len() <= j - lo && occurs_at(cs, j - p.len(), j, p)
        invariant
            lo <= j <= hi <= cs@.len(),
            p@.len() > 0,
            strip_trailing(cs@.subrange(lo as int, j as int), p@) == strip_trailing(
                cs@.subrange(lo as int, hi as int),
                p@,
            ),
        decreases j - lo,
    {
        let ghost s = cs@.subrange(lo as int, j as int);
        assert(s.subrange(s.len() - p@.len(), s.len() as int) =~= cs@.subrange(
            j - p@.len(),
            j as int,
        ));
        assert(s.subrange(0, s.len() - p@.len()) =~= cs@.subrange(lo as int, j - p@.len()));
        j = j - p.len();
    }
    let ghost s = cs@.subrange(lo as int, j as int);
    assert(p@.len() <= s.len() ==> s.subrange(s.len() - p@.len(), s.len() as int)
        =~= cs@.subrange(j - p@.len(), j as int));
    j
}

/// The bounds of `cs[lo..hi]` once white space is taken off both ends.
fn trim_bounds(cs: &Vec<char>) -> (r: (usize, usize))
    ensures
        r.0 <= r.1 <= cs@.len(),
        cs@.subrange(r.0 as int, r.1 as int) == trim(cs@),
{
    let n = cs.len();
    let mut lo: usize = 0;
    assert(cs@.subrange(0, n as int) =~= cs@);
    while lo < n && space_char(cs[lo])
        invariant
            lo <= n == cs@.len(),
            trim_start(cs@.subrange(lo as int, n as int)) == trim_start(cs@),
        decreases n - lo,
    {
        assert(cs@.subrange(lo as int, n as int).drop_first() =~= cs@.subrange(
            lo + 1,
            n as int,
        ));
        lo = lo + 1;
    }
    let mut hi: usize = n;
    while hi > lo && space_char(cs[hi - 1])
        invariant
            lo <= hi <= n == cs@.len(),
            trim_start(cs@) == cs@.subrange(lo as int, n as int),
            trim_end(cs@.subrange(lo as int, hi as int)) == trim(cs@),
        decreases hi,
    {
        assert(cs@.subrange(lo as int, hi as int).drop_last() =~= cs@.subrange(
            lo as int,
            hi - 1,
        ));
        hi = hi - 1;
    }
    (lo, hi)
}

/// The characters `cs[lo..hi]` as a string.
pub(crate) fn span(cs: &Vec<char>, lo: usize, hi: usize) -> (r: String)
    requires
        lo <= hi <= cs@.len(),
    ensures
        r@ == cs@.subrange(lo as int, hi as int),
{
    let mut out: Vec<char> = Vec::new();
    let mut k: usize = lo;
    while k < hi
        invariant
            lo <= k <= hi <= cs@.len(),
            out@ == cs@.subrange(lo as int, k as int),
        decreases hi - k,
    {
        out.push(cs[k]);
        assert(out@ =~= cs@.subrange(lo as int, k + 1));
        k = k + 1;
    }
    string_of(&out)
}

/// Takes white space off both ends of `s`.
pub fn trimmed(s: &str) -> (r: String)
    ensures
        r@ == trim(s@),
{
    let cs = chars_of(s);
    let (lo, hi) = trim_bounds(&cs);
    span(&cs, lo, hi)
}

/// Normalizes a structured model reply before decoding: surrounding white space and
/// code-fence markers are taken off.
pub fn strip_code_fences(raw: &str) -> (r: String)
    ensures
        r@ == sanitized(raw@),
{
    let cs = chars_of(raw);
    let (lo, hi) = trim_bounds(&cs);
    let tagged: Vec<char> = vec!['`', '`', '`', 'j', 's', 'o', 'n'];
    let plain: Vec<char> = vec!['`', '`', '`'];
    assert(tagged@ =~= json_fence());
    assert(plain@ =~= fence());
    let a = skip_leading(&cs, lo, hi, &tagged);
    let b = skip_leading(&cs, a, hi, &plain);
    let c = skip_trailing(&cs, b, hi, &plain);
    span(&cs, b, c)
}

/// Turns every literal backslash-n pair of a translated text into a line break.
pub fn unescape_newlines(s: &str) -> (r: String)
    ensures
        r@ == unescaped(s@),
{
    let cs = chars_of(s);
    let n = cs.len();
    let mut out: Vec<char> = Vec::new();
    let mut i: usize = 0;
    assert(cs@.subrange(0, n as int) =~= cs@);
    while i < n
        invariant
            i <= n == cs@.len(),
            out@ + unescaped(cs@.subrange(i as int, n as int)) == unescaped(cs@),
        decreases n - i,
    {
        let ghost rest = cs@.subrange(i as int, n as int);
        if i + 1 < n && cs[i] == '\\' && cs[i + 1] == 'n' {
            assert(rest.subrange(2, rest.len() as int) =~= cs@.subrange(i + 2, n as int));
            out.push('\n');
            i = i + 2;
        } else {
            assert(rest.drop_first() =~= cs@.subrange(i + 1, n as int));
            out.push(cs[i]);
            i = i + 1;
        }
        assert(out@ + unescaped(cs@.subrange(i as int, n as int)) =~= unescaped(cs@));
    }
    assert(cs@.subrange(n as int, n as int) =~= Seq::<char>::empty());
    assert(out@ =~= unescaped(cs@));
    string_of(&out)
}

/// Whether `a` and `b` hold the same characters.
pub fn same_text(a: &str, b: &str) -> (r: bool)
    ensures
        r == (a@ == b@),
{
    let x = chars_of(a);
    let y = chars_of(b);
    if x.len() != y.len() {
        return false;
    }
    let mut i: usize = 0;
    while i < x.len()
        invariant
            x@ == a@,
            y@ == b@,
            x@.len() == y@.len(),
            i <= x@.len(),
            forall|j: int| 0 <= j < i ==> x@[j] == y@[j],
        decreases x@.len() - i,
    {
        if x[i] != y[i] {
            assert(x@[i as int] != y@[i as int]);
            return false;
        }
        i = i + 1;
    }
    assert(x@ =~= y@);
    true
}

} // verus!
