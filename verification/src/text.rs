//! Character-level string utilities with specifications over `Seq<char>`.

use vstd::prelude::*;
use vstd::string::*;

verus! {

/// `String::push` from std: appends one character.
#[verifier::external_body]
pub(crate) fn push_char(s: &mut String, c: char)
    ensures
        final(s)@ == old(s)@.push(c),
{
    s.push(c);
}

/// Collects the characters of `s` into a vector.
pub fn chars_of(s: &str) -> (res: Vec<char>)
    ensures
        res@ == s@,
{
    let mut res: Vec<char> = Vec::new();
    for c in it: s.chars()
        invariant
            res@ == it.seq().take(it.index() as int),
    {
        res.push(c);
    }
    res
}

/// Builds a `String` from a character slice.
pub fn from_chars(cs: &[char]) -> (res: String)
    ensures
        res@ == cs@,
{
    let mut res = String::new();
    let mut i: usize = 0;
    while i < cs.len()
        invariant
            i <= cs.len(),
            res@ == cs@.take(i as int),
        decreases cs.len() - i,
    {
        push_char(&mut res, cs[i]);
        i = i + 1;
    }
    res
}

} // verus!

verus! {

/// Unicode `White_Space` property (PropList.txt), which `char::is_whitespace` tests.
pub open spec fn is_ws(c: char) -> bool {
    let u = c as u32;
    ||| (0x09 <= u && u <= 0x0d)
    ||| u == 0x20
    ||| u == 0x85
    ||| u == 0xa0
    ||| u == 0x1680
    ||| (0x2000 <= u && u <= 0x200a)
    ||| u == 0x2028
    ||| u == 0x2029
    ||| u == 0x202f
    ||| u == 0x205f
    ||| u == 0x3000
}

/// Whether `c` has the Unicode `White_Space` property (see `is_ws`), as
/// `char::is_whitespace` answers.
pub fn char_is_whitespace(c: char) -> (r: bool)
    ensures
        r == is_ws(c),
{
    let u = c as u32;
    (0x09 <= u && u <= 0x0d) || u == 0x20 || u == 0x85 || u == 0xa0 || u == 0x1680
        || (0x2000 <= u && u <= 0x200a) || u == 0x2028 || u == 0x2029 || u == 0x202f
        || u == 0x205f || u == 0x3000
}

/// Index of the first non-whitespace character at or after `i` (or `s.len()`).
pub open spec fn skip_ws_from(s: Seq<char>, i: int) -> int
    decreases s.len() - i,
{
    if i >= s.len() || i < 0 {
        if i < 0 { 0 } else { s.len() as int }
    } else if is_ws(s[i]) {
        skip_ws_from(s, i + 1)
    } else {
        i
    }
}

/// One past the last non-whitespace character at or before `j - 1` (or 0).
pub open spec fn trim_end_len(s: Seq<char>, j: int) -> int
    decreases j,
{
    if j <= 0 {
        0
    } else if j > s.len() {
        trim_end_len(s, s.len() as int)
    } else if is_ws(s[j - 1]) {
        trim_end_len(s, j - 1)
    } else {
        j
    }
}

/// `str::trim_end` on a character sequence.
pub open spec fn trim_end_spec(s: Seq<char>) -> Seq<char> {
    s.take(trim_end_len(s, s.len() as int))
}

/// `str::trim_start` on a character sequence.
pub open spec fn trim_start_spec(s: Seq<char>) -> Seq<char> {
    s.skip(skip_ws_from(s, 0))
}

/// `str::trim`: leading and trailing Unicode whitespace removed.
pub open spec fn trim_spec(s: Seq<char>) -> Seq<char> {
    trim_start_spec(trim_end_spec(s))
}

proof fn lemma_skip_ws_from_bounds(s: Seq<char>, i: int)
    requires
        0 <= i <= s.len(),
    ensures
        i <= skip_ws_from(s, i) <= s.len(),
        forall|k: int| i <= k < skip_ws_from(s, i) ==> is_ws(#[trigger] s[k]),
        skip_ws_from(s, i) < s.len() ==> !is_ws(s[skip_ws_from(s, i)]),
    decreases s.len() - i,
{
    if i < s.len() && is_ws(s[i]) {
        lemma_skip_ws_from_bounds(s, i + 1);
    }
}

proof fn lemma_trim_end_len_bounds(s: Seq<char>, j: int)
    requires
        0 <= j <= s.len(),
    ensures
        0 <= trim_end_len(s, j) <= j,
        forall|k: int| trim_end_len(s, j) <= k < j ==> is_ws(#[trigger] s[k]),
        trim_end_len(s, j) > 0 ==> !is_ws(s[trim_end_len(s, j) - 1]),
    decreases j,
{
    if j > 0 && is_ws(s[j - 1]) {
        lemma_trim_end_len_bounds(s, j - 1);
    }
}

/// `str::trim` on a character slice.
pub fn trim_chars(s: &[char]) -> (res: Vec<char>)
    ensures
        res@ == trim_spec(s@),
{
    let mut end: usize = s.len();
    while end > 0 && char_is_whitespace(s[end - 1])
        invariant
            end <= s.len(),
            trim_end_len(s@, s@.len() as int) == trim_end_len(s@, end as int),
        decreases end,
    {
        end = end - 1;
    }
    proof {
        lemma_trim_end_len_bounds(s@, s@.len() as int);
    }
    let ghost t = s@.take(end as int);
    assert(trim_end_spec(s@) == t);
    let mut start: usize = 0;
    while start < end && char_is_whitespace(s[start])
        invariant
            start <= end <= s.len(),
            t == s@.take(end as int),
            skip_ws_from(t, 0) == skip_ws_from(t, start as int),
        decreases end - start,
    {
        start = start + 1;
    }
    let mut res: Vec<char> = Vec::new();
    let mut k: usize = start;
    while k < end
        invariant
            start <= k <= end <= s.len(),
            res@ == s@.subrange(start as int, k as int),
        decreases end - k,
    {
        res.push(s[k]);
        k = k + 1;
    }
    assert(res@ == t.skip(start as int));
    res
}

/// `str::trim`, returning an owned string.
pub fn trim_str(s: &str) -> (res: String)
    ensures
        res@ == trim_spec(s@),
{
    let cs = chars_of(s);
    let t = trim_chars(cs.as_slice());
    from_chars(t.as_slice())
}

/// True when `p` occurs in `s` starting at index `i`.
pub open spec fn occurs_at(s: Seq<char>, p: Seq<char>, i: int) -> bool {
    0 <= i && i + p.len() <= s.len() && s.subrange(i, i + p.len()) == p
}

/// `str::contains` with a string pattern.
pub open spec fn contains_spec(s: Seq<char>, p: Seq<char>) -> bool {
    exists|i: int| #[trigger] occurs_at(s, p, i)
}

/// `str::starts_with` with a string pattern.
pub open spec fn starts_with_spec(s: Seq<char>, p: Seq<char>) -> bool {
    occurs_at(s, p, 0)
}

/// Decides `occurs_at` for a concrete position.
pub fn occurs_at_exec(s: &[char], p: &[char], i: usize) -> (r: bool)
    ensures
        r == occurs_at(s@, p@, i as int),
{
    if i > s.len() || p.len() > s.len() - i {
        return false;
    }
    let mut k: usize = 0;
    while k < p.len()
        invariant
            k <= p.len(),
            i + p.len() <= s.len(),
            forall|m: int| 0 <= m < k ==> s@[i + m] == p@[m],
        decreases p.len() - k,
    {
        if s[i + k] != p[k] {
            assert(s@.subrange(i as int, i + p.len())[k as int] != p@[k as int]);
            return false;
        }
        k = k + 1;
    }
    assert(s@.subrange(i as int, i + p.len()) =~= p@);
    true
}

/// `str::contains` on character slices.
pub fn contains_chars(s: &[char], p: &[char]) -> (r: bool)
    ensures
        r == contains_spec(s@, p@),
{
    let mut i: usize = 0;
    while i < s.len()
        invariant
            i <= s.len(),
            forall|j: int| 0 <= j < i ==> !occurs_at(s@, p@, j),
        decreases s.len() - i,
    {
        if occurs_at_exec(s, p, i) {
            return true;
        }
        i = i + 1;
    }
    if occurs_at_exec(s, p, i) {
        return true;
    }
    assert forall|j: int| !occurs_at(s@, p@, j) by {
        if 0 <= j <= i {
        } else {
        }
    }
    false
}

/// `str::contains` with a string pattern.
pub fn contains_str(s: &str, p: &str) -> (r: bool)
    ensures
        r == contains_spec(s@, p@),
{
    let a = chars_of(s);
    let b = chars_of(p);
    contains_chars(a.as_slice(), b.as_slice())
}

/// `str::starts_with` with a string pattern.
pub fn starts_with_str(s: &str, p: &str) -> (r: bool)
    ensures
        r == starts_with_spec(s@, p@),
{
    let a = chars_of(s);
    let b = chars_of(p);
    occurs_at_exec(a.as_slice(), b.as_slice(), 0)
}

} // verus!

verus! {

/// `str::replace(p, r)`: every non-overlapping occurrence of `p`, scanning from
/// the left, is replaced by `r`. An empty `p` matches before every character and
/// at the end.
pub open spec fn replace_spec(s: Seq<char>, p: Seq<char>, r: Seq<char>) -> Seq<char>
    decreases s.len(),
{
    if p.len() == 0 {
        if s.len() == 0 {
            r
        } else {
            r + seq![s[0]] + replace_spec(s.skip(1), p, r)
        }
    } else if s.len() < p.len() {
        s
    } else if s.take(p.len() as int) == p {
        r + replace_spec(s.skip(p.len() as int), p, r)
    } else {
        seq![s[0]] + replace_spec(s.skip(1), p, r)
    }
}

/// `str::matches(p).count()`: the number of non-overlapping occurrences of `p`
/// found scanning from the left (for an empty `p`, one more than the length).
pub open spec fn count_spec(s: Seq<char>, p: Seq<char>) -> nat
    decreases s.len(),
{
    if p.len() == 0 {
        s.len() + 1
    } else if s.len() < p.len() {
        0
    } else if s.take(p.len() as int) == p {
        1 + count_spec(s.skip(p.len() as int), p)
    } else {
        count_spec(s.skip(1), p)
    }
}

proof fn lemma_skip_occurs(s: Seq<char>, p: Seq<char>, i: int)
    requires
        0 <= i <= s.len(),
    ensures
        occurs_at(s, p, i) <==> (s.skip(i).len() >= p.len() && s.skip(i).take(p.len() as int) == p),
{
    if i + p.len() <= s.len() {
        assert(s.skip(i).take(p.len() as int) =~= s.subrange(i, i + p.len()));
    }
}

/// `str::replace` on character slices.
pub fn replace_chars(s: &[char], p: &[char], r: &[char]) -> (res: Vec<char>)
    ensures
        res@ == replace_spec(s@, p@, r@),
{
    let mut out: Vec<char> = Vec::new();
    let mut i: usize = 0;
    assert(s@.skip(0) =~= s@);
    assert(out@ + replace_spec(s@, p@, r@) =~= replace_spec(s@, p@, r@));
    while i < s.len()
        invariant
            i <= s.len(),
            out@ + replace_spec(s@.skip(i as int), p@, r@) == replace_spec(s@, p@, r@),
        decreases s.len() - i,
    {
        let ghost rest = s@.skip(i as int);
        proof {
            lemma_skip_occurs(s@, p@, i as int);
            assert(rest.skip(1) =~= s@.skip(i + 1));
        }
        if p.len() == 0 {
            let mut k: usize = 0;
            let ghost before = out@;
            while k < r.len()
                invariant
                    k <= r.len(),
                    out@ == before + r@.take(k as int),
                decreases r.len() - k,
            {
                out.push(r[k]);
                k = k + 1;
            }
            out.push(s[i]);
            assert(out@ =~= before + (r@ + seq![rest[0]]));
            assert(r@.take(r.len() as int) =~= r@);
            i = i + 1;
        } else if occurs_at_exec(s, p, i) {
            let mut k: usize = 0;
            let ghost before = out@;
            while k < r.len()
                invariant
                    k <= r.len(),
                    out@ == before + r@.take(k as int),
                decreases r.len() - k,
            {
                out.push(r[k]);
                k = k + 1;
            }
            assert(r@.take(r.len() as int) =~= r@);
            assert(rest.skip(p.len() as int) =~= s@.skip(i + p.len()));
            i = i + p.len();
        } else if s.len() - i < p.len() {
            let mut k: usize = i;
            let ghost before = out@;
            while k < s.len()
                invariant
                    i <= k <= s.len(),
                    out@ == before + s@.subrange(i as int, k as int),
                decreases s.len() - k,
            {
                out.push(s[k]);
                k = k + 1;
            }
            assert(s@.subrange(i as int, s.len() as int) =~= rest);
            assert(s@.skip(s.len() as int).len() == 0);
            i = s.len();
        } else {
            let ghost before = out@;
            out.push(s[i]);
            assert(out@ =~= before + seq![rest[0]]);
            i = i + 1;
        }
    }
    let ghost rest = s@.skip(i as int);
    if p.len() == 0 {
        let mut k: usize = 0;
        let ghost before = out@;
        while k < r.len()
            invariant
                k <= r.len(),
                out@ == before + r@.take(k as int),
            decreases r.len() - k,
        {
            out.push(r[k]);
            k = k + 1;
        }
        assert(r@.take(r.len() as int) =~= r@);
    }
    assert(out@ =~= out@ + Seq::<char>::empty());
    out
}

/// `str::replace` with string arguments.
pub fn replace_str(s: &str, p: &str, r: &str) -> (res: String)
    ensures
        res@ == replace_spec(s@, p@, r@),
{
    let a = chars_of(s);
    let b = chars_of(p);
    let c = chars_of(r);
    let v = replace_chars(a.as_slice(), b.as_slice(), c.as_slice());
    from_chars(v.as_slice())
}

/// `str::matches(p).count()` on character slices, saturating at `u64::MAX`.
pub fn count_chars(s: &[char], p: &[char]) -> (res: u64)
    ensures
        res == if count_spec(s@, p@) <= u64::MAX { count_spec(s@, p@) as u64 } else { u64::MAX },
{
    if p.len() == 0 {
        if s.len() as u64 >= u64::MAX {
            return u64::MAX;
        }
        return s.len() as u64 + 1;
    }
    let mut n: u64 = 0;
    let mut i: usize = 0;
    assert(s@.skip(0) =~= s@);
    while i < s.len()
        invariant
            i <= s.len(),
            p.len() > 0,
            n <= u64::MAX,
            n as nat + count_spec(s@.skip(i as int), p@) == count_spec(s@, p@) || n == u64::MAX && count_spec(s@, p@) >= u64::MAX,
        decreases s.len() - i,
    {
        let ghost rest = s@.skip(i as int);
        proof {
            lemma_skip_occurs(s@, p@, i as int);
            assert(rest.skip(1) =~= s@.skip(i + 1));
        }
        if s.len() - i < p.len() {
            i = s.len();
        } else if occurs_at_exec(s, p, i) {
            assert(rest.skip(p.len() as int) =~= s@.skip(i + p.len()));
            if n < u64::MAX {
                n = n + 1;
            }
            i = i + p.len();
        } else {
            i = i + 1;
        }
    }
    n
}

} // verus!

verus! {

/// Helper for `split_spec`: `cur` is the part of the current segment already read.
pub open spec fn split_acc(s: Seq<char>, p: Seq<char>, cur: Seq<char>) -> Seq<Seq<char>>
    decreases s.len(),
{
    if p.len() == 0 || s.len() < p.len() {
        seq![cur + s]
    } else if s.take(p.len() as int) == p {
        seq![cur] + split_acc(s.skip(p.len() as int), p, Seq::empty())
    } else {
        split_acc(s.skip(1), p, cur.push(s[0]))
    }
}

/// `str::split(p)` for a non-empty pattern: the segments between the
/// non-overlapping occurrences of `p`, scanning from the left.
pub open spec fn split_spec(s: Seq<char>, p: Seq<char>) -> Seq<Seq<char>> {
    split_acc(s, p, Seq::empty())
}

/// The views of a sequence of character vectors.
pub open spec fn views(v: Seq<Vec<char>>) -> Seq<Seq<char>> {
    v.map_values(|x: Vec<char>| x@)
}

/// `str::split(p)` on character slices, for a non-empty pattern.
pub fn split_chars(s: &[char], p: &[char]) -> (res: Vec<Vec<char>>)
    requires
        p.len() > 0,
    ensures
        views(res@) == split_spec(s@, p@),
{
    let mut parts: Vec<Vec<char>> = Vec::new();
    let mut cur: Vec<char> = Vec::new();
    let mut i: usize = 0;
    assert(s@.skip(0) =~= s@);
    assert(views(parts@) + split_acc(s@, p@, cur@) =~= split_spec(s@, p@));
    while i < s.len()
        invariant
            i <= s.len(),
            p.len() > 0,
            views(parts@) + split_acc(s@.skip(i as int), p@, cur@) == split_spec(s@, p@),
        decreases s.len() - i,
    {
        let ghost rest = s@.skip(i as int);
        proof {
            lemma_skip_occurs(s@, p@, i as int);
            assert(rest.skip(1) =~= s@.skip(i + 1));
        }
        if s.len() - i < p.len() {
            let ghost before = cur@;
            let ghost start = i;
            while i < s.len()
                invariant
                    start <= i <= s.len(),
                    cur@ == before + s@.subrange(start as int, i as int),
                    rest == s@.skip(start as int),
                decreases s.len() - i,
            {
                cur.push(s[i]);
                i = i + 1;
            }
            assert(s@.subrange(start as int, s.len() as int) =~= rest);
            assert(s@.skip(i as int).len() == 0);
            assert(split_acc(s@.skip(i as int), p@, cur@) =~= seq![before + rest]);
        } else if occurs_at_exec(s, p, i) {
            assert(rest.skip(p.len() as int) =~= s@.skip(i + p.len()));
            let ghost old_parts = parts@;
            let done = cur;
            cur = Vec::new();
            parts.push(done);
            assert(views(parts@) =~= views(old_parts) + seq![done@]);
            i = i + p.len();
        } else {
            cur.push(s[i]);
            i = i + 1;
        }
    }
    let ghost old_parts = parts@;
    let ghost cv = cur@;
    parts.push(cur);
    assert(s@.skip(i as int) =~= Seq::<char>::empty());
    assert(split_acc(s@.skip(i as int), p@, cv) =~= seq![cv]);
    assert(views(parts@) =~= views(old_parts) + seq![cv]);
    parts
}

} // verus!

verus! {

/// Position of the first occurrence of `p` at or after `i`.
pub open spec fn find_from(s: Seq<char>, p: Seq<char>, i: int) -> Option<int>
    decreases s.len() + 1 - i,
{
    if i < 0 || i > s.len() {
        None
    } else if occurs_at(s, p, i) {
        Some(i)
    } else {
        find_from(s, p, i + 1)
    }
}

/// `str::find(p)`, counted in characters.
pub open spec fn find_spec(s: Seq<char>, p: Seq<char>) -> Option<int> {
    find_from(s, p, 0)
}

/// `str::split_once(p)`: the parts before and after the first occurrence of `p`.
pub open spec fn split_once_spec(s: Seq<char>, p: Seq<char>) -> Option<(Seq<char>, Seq<char>)> {
    match find_spec(s, p) {
        Some(i) => Some((s.take(i), s.skip(i + p.len()))),
        None => None,
    }
}

/// `find` on character slices.
pub fn find_chars(s: &[char], p: &[char]) -> (res: Option<usize>)
    ensures
        match res {
            Some(i) => find_spec(s@, p@) == Some(i as int),
            None => find_spec(s@, p@) is None,
        },
{
    let mut i: usize = 0;
    while i < s.len()
        invariant
            i <= s.len(),
            find_spec(s@, p@) == find_from(s@, p@, i as int),
        decreases s.len() - i,
    {
        if occurs_at_exec(s, p, i) {
            return Some(i);
        }
        i = i + 1;
    }
    if occurs_at_exec(s, p, i) {
        return Some(i);
    }
    assert(find_from(s@, p@, i + 1) is None);
    None
}

/// `split_once` on character slices.
pub fn split_once_chars(s: &[char], p: &[char]) -> (res: Option<(Vec<char>, Vec<char>)>)
    ensures
        match res {
            Some((a, b)) => split_once_spec(s@, p@) == Some((a@, b@)),
            None => split_once_spec(s@, p@) is None,
        },
{
    match find_chars(s, p) {
        None => None,
        Some(i) => {
            proof {
                assert(occurs_at(s@, p@, i as int)) by {
                    lemma_find_from_occurs(s@, p@, 0);
                }
            }
            let a = subrange_chars(s, 0, i);
            let b = subrange_chars(s, i + p.len(), s.len());
            assert(a@ =~= s@.take(i as int));
            assert(b@ =~= s@.skip(i + p.len()));
            Some((a, b))
        },
    }
}

proof fn lemma_find_from_occurs(s: Seq<char>, p: Seq<char>, i: int)
    ensures
        find_from(s, p, i) matches Some(j) ==> occurs_at(s, p, j) && i <= j,
    decreases s.len() + 1 - i,
{
    if i < 0 || i > s.len() {
    } else if occurs_at(s, p, i) {
    } else {
        lemma_find_from_occurs(s, p, i + 1);
    }
}

/// Copies `s[lo..hi]`.
pub fn subrange_chars(s: &[char], lo: usize, hi: usize) -> (res: Vec<char>)
    requires
        lo <= hi <= s.len(),
    ensures
        res@ == s@.subrange(lo as int, hi as int),
{
    let mut res: Vec<char> = Vec::new();
    let mut k: usize = lo;
    while k < hi
        invariant
            lo <= k <= hi <= s.len(),
            res@ == s@.subrange(lo as int, k as int),
        decreases hi - k,
    {
        res.push(s[k]);
        k = k + 1;
    }
    res
}

/// `[T]::join(sep)` for character sequences.
pub open spec fn join_spec(parts: Seq<Seq<char>>, sep: Seq<char>) -> Seq<char>
    decreases parts.len(),
{
    if parts.len() == 0 {
        Seq::empty()
    } else if parts.len() == 1 {
        parts[0]
    } else {
        join_spec(parts.drop_last(), sep) + sep + parts.last()
    }
}

/// Appends `src` to `dst`.
pub fn append_chars(dst: &mut Vec<char>, src: &[char])
    ensures
        final(dst)@ == old(dst)@ + src@,
{
    let mut k: usize = 0;
    let ghost before = dst@;
    while k < src.len()
        invariant
            k <= src.len(),
            dst@ == before + src@.take(k as int),
        decreases src.len() - k,
    {
        dst.push(src[k]);
        k = k + 1;
    }
    assert(src@.take(src.len() as int) =~= src@);
}

/// `join` on vectors of characters.
pub fn join_chars(parts: &Vec<Vec<char>>, sep: &[char]) -> (res: Vec<char>)
    ensures
        res@ == join_spec(views(parts@), sep@),
{
    let mut out: Vec<char> = Vec::new();
    let mut i: usize = 0;
    while i < parts.len()
        invariant
            i <= parts.len(),
            out@ == join_spec(views(parts@).take(i as int), sep@),
        decreases parts.len() - i,
    {
        let ghost pre = views(parts@).take(i as int);
        let ghost nxt = views(parts@).take(i + 1);
        assert(nxt.drop_last() =~= pre);
        if i > 0 {
            append_chars(&mut out, sep);
        }
        append_chars(&mut out, parts[i].as_slice());
        if i == 0 {
            assert(out@ =~= nxt[0]);
        }
        i = i + 1;
    }
    assert(views(parts@).take(parts.len() as int) =~= views(parts@));
    out
}

/// Removes one trailing carriage return.
pub open spec fn strip_cr(x: Seq<char>) -> Seq<char> {
    if x.len() > 0 && x.last() == '\r' { x.drop_last() } else { x }
}

/// `str::lines`: split at `\n`, a `\r` before each `\n` removed, and no empty
/// final line after a trailing line ending.
pub open spec fn lines_spec(s: Seq<char>) -> Seq<Seq<char>> {
    let parts = split_spec(s, seq!['\n']);
    let n = parts.len() as int;
    let terminated = parts.take(n - 1).map_values(|x: Seq<char>| strip_cr(x));
    if parts[n - 1].len() == 0 { terminated } else { terminated.push(parts[n - 1]) }
}

proof fn lemma_split_acc_nonempty(s: Seq<char>, p: Seq<char>, cur: Seq<char>)
    ensures
        split_acc(s, p, cur).len() >= 1,
    decreases s.len(),
{
    if p.len() == 0 || s.len() < p.len() {
    } else if s.take(p.len() as int) == p {
        lemma_split_acc_nonempty(s.skip(p.len() as int), p, Seq::empty());
    } else {
        lemma_split_acc_nonempty(s.skip(1), p, cur.push(s[0]));
    }
}

/// `str::lines` on a character slice.
pub fn lines_chars(s: &[char]) -> (res: Vec<Vec<char>>)
    ensures
        views(res@) == lines_spec(s@),
{
    let nl: [char; 1] = ['\n'];
    let parts = split_chars(s, &nl);
    proof {
        lemma_split_acc_nonempty(s@, seq!['\n'], Seq::empty());
        assert(nl@ =~= seq!['\n']);
    }
    let ghost pv = views(parts@);
    let n = parts.len();
    let mut out: Vec<Vec<char>> = Vec::new();
    let mut i: usize = 0;
    while i + 1 < n
        invariant
            n == parts.len(),
            n >= 1,
            pv == views(parts@),
            i < n,
            views(out@) == pv.take(i as int).map_values(|x: Seq<char>| strip_cr(x)),
        decreases n - i,
    {
        let part = &parts[i];
        let mut line: Vec<char> = part.clone();
        if line.len() > 0 && line[line.len() - 1] == '\r' {
            line.pop();
        }
        let ghost old_out = out@;
        assert(line@ == strip_cr(pv[i as int])) by {
            assert(pv[i as int] == parts@[i as int]@);
            if part@.len() > 0 && part@.last() == '\r' {
                assert(line@ =~= part@.drop_last());
            }
        }
        let ghost lv = line@;
        out.push(line);
        assert(views(out@) =~= views(old_out).push(lv));
        assert(pv.take(i + 1).map_values(|x: Seq<char>| strip_cr(x)) =~= pv.take(i as int).map_values(|x: Seq<char>| strip_cr(x)).push(strip_cr(pv[i as int])));
        assert(views(out@) =~= pv.take(i + 1).map_values(|x: Seq<char>| strip_cr(x)));
        i = i + 1;
    }
    if parts[n - 1].len() > 0 {
        let last = parts[n - 1].clone();
        let ghost old_out = out@;
        out.push(last);
        assert(views(out@) =~= views(old_out).push(pv[n - 1]));
    }
    out
}

} // verus!

verus! {

/// Equality of two character slices.
pub fn chars_eq(a: &[char], b: &[char]) -> (r: bool)
    ensures
        r == (a@ == b@),
{
    if a.len() != b.len() {
        return false;
    }
    let mut i: usize = 0;
    while i < a.len()
        invariant
            i <= a.len() == b.len(),
            forall|k: int| 0 <= k < i ==> a@[k] == b@[k],
        decreases a.len() - i,
    {
        if a[i] != b[i] {
            return false;
        }
        i = i + 1;
    }
    assert(a@ =~= b@);
    true
}

/// Equality of two strings.
pub fn str_eq(a: &str, b: &str) -> (r: bool)
    ensures
        r == (a@ == b@),
{
    let x = chars_of(a);
    let y = chars_of(b);
    chars_eq(x.as_slice(), y.as_slice())
}

/// The lowercase form of a string under Unicode case mapping, as computed by
/// `str::to_lowercase`.
pub uninterp spec fn lowercase_of(s: Seq<char>) -> Seq<char>;

/// The ASCII lowercase of a character: `A`–`Z` become `a`–`z`, every other
/// character is unchanged.
pub open spec fn ascii_lower(c: char) -> char {
    if 'A' <= c && c <= 'Z' { ((c as u32) + 32) as char } else { c }
}

/// Whether every character of `s` is ASCII.
pub open spec fn all_ascii(s: Seq<char>) -> bool {
    forall|i: int| 0 <= i < s.len() ==> (s[i] as u32) < 128
}

/// `str::to_lowercase` from std; the result is named by `lowercase_of`. On
/// ASCII text the Unicode lowercase mapping is the ASCII one, character by
/// character.
#[verifier::external_body]
pub(crate) fn to_lowercase(s: &str) -> (res: String)
    ensures
        res@ == lowercase_of(s@),
        all_ascii(s@) ==> res@ == s@.map_values(|c: char| ascii_lower(c)),
{
    s.to_lowercase()
}

/// Concatenation of two strings.
pub fn concat(a: &str, b: &str) -> (res: String)
    ensures
        res@ == a@ + b@,
{
    let mut s = a.to_owned();
    s.append(b);
    s
}

} // verus!

verus! {

/// UTF-8 length of a character in bytes.
pub open spec fn width(c: char) -> nat {
    vstd::utf8::encode_scalar(c as u32).len()
}

/// UTF-8 length of a character sequence in bytes.
pub open spec fn byte_len(s: Seq<char>) -> nat {
    vstd::utf8::encode_utf8(s).len()
}

/// `char::len_utf8`.
pub fn char_width(c: char) -> (r: usize)
    ensures
        r == width(c),
        1 <= r <= 4,
{
    proof {
        vstd::utf8::char_is_scalar(c);
    }
    let u = c as u32;
    if u <= 0x7f {
        1
    } else if u <= 0x7ff {
        2
    } else if u <= 0xffff {
        3
    } else {
        4
    }
}

pub proof fn lemma_byte_len_step(s: Seq<char>)
    requires
        s.len() > 0,
    ensures
        byte_len(s) == width(s[0]) + byte_len(s.skip(1)),
{
    assert(s.drop_first() =~= s.skip(1));
}

/// The longest prefix of `s` whose UTF-8 encoding fits in `n` bytes.
pub open spec fn byte_prefix_spec(s: Seq<char>, n: int) -> Seq<char>
    decreases s.len(),
{
    if s.len() == 0 || width(s[0]) > n {
        Seq::empty()
    } else {
        seq![s[0]] + byte_prefix_spec(s.skip(1), n - width(s[0]))
    }
}

/// Whether the UTF-8 encoding of `s` is exactly `n` bytes long.
pub fn byte_len_is(s: &[char], n: usize) -> (r: bool)
    ensures
        r == (byte_len(s@) == n),
{
    let mut acc: usize = 0;
    let mut i: usize = 0;
    assert(s@.skip(0) =~= s@);
    while i < s.len()
        invariant
            i <= s.len(),
            acc <= n,
            byte_len(s@) == acc + byte_len(s@.skip(i as int)),
        decreases s.len() - i,
    {
        proof {
            lemma_byte_len_step(s@.skip(i as int));
            assert(s@.skip(i as int).skip(1) =~= s@.skip(i + 1));
        }
        let w = char_width(s[i]);
        if w > n - acc {
            return false;
        }
        acc = acc + w;
        i = i + 1;
    }
    assert(s@.skip(i as int) =~= Seq::<char>::empty());
    acc == n
}

/// Whether the UTF-8 encoding of `s` is longer than `n` bytes.
pub fn byte_len_exceeds(s: &[char], n: usize) -> (r: bool)
    ensures
        r == (byte_len(s@) > n),
{
    let mut acc: usize = 0;
    let mut i: usize = 0;
    assert(s@.skip(0) =~= s@);
    while i < s.len()
        invariant
            i <= s.len(),
            acc <= n,
            byte_len(s@) == acc + byte_len(s@.skip(i as int)),
        decreases s.len() - i,
    {
        proof {
            lemma_byte_len_step(s@.skip(i as int));
            assert(s@.skip(i as int).skip(1) =~= s@.skip(i + 1));
        }
        let w = char_width(s[i]);
        if w > n - acc {
            return true;
        }
        acc = acc + w;
        i = i + 1;
    }
    assert(s@.skip(i as int) =~= Seq::<char>::empty());
    false
}

/// The longest prefix of `s` that fits in `n` UTF-8 bytes.
pub fn byte_prefix(s: &[char], n: usize) -> (res: Vec<char>)
    ensures
        res@ == byte_prefix_spec(s@, n as int),
{
    let mut out: Vec<char> = Vec::new();
    let mut acc: usize = 0;
    let mut i: usize = 0;
    assert(s@.skip(0) =~= s@);
    while i < s.len()
        invariant
            i <= s.len(),
            acc <= n,
            out@ + byte_prefix_spec(s@.skip(i as int), n - acc) == byte_prefix_spec(s@, n as int),
        decreases s.len() - i,
    {
        let w = char_width(s[i]);
        let ghost rest = s@.skip(i as int);
        assert(rest.skip(1) =~= s@.skip(i + 1));
        if w > n - acc {
            assert(out@ + Seq::<char>::empty() =~= out@);
            return out;
        }
        let ghost before = out@;
        out.push(s[i]);
        assert(out@ =~= before + seq![rest[0]]);
        acc = acc + w;
        i = i + 1;
    }
    assert(s@.skip(i as int) =~= Seq::<char>::empty());
    assert(out@ + Seq::<char>::empty() =~= out@);
    out
}

} // verus!

verus! {

/// The views of a sequence of strings.
pub open spec fn str_views(v: Seq<String>) -> Seq<Seq<char>> {
    v.map_values(|x: String| x@)
}

/// `str::split(p)` collected into owned strings, for a non-empty pattern.
pub fn split_str(s: &str, p: &str) -> (res: Vec<String>)
    requires
        p@.len() > 0,
    ensures
        str_views(res@) == split_spec(s@, p@),
{
    let cs = chars_of(s);
    let ps = chars_of(p);
    let parts = split_chars(cs.as_slice(), ps.as_slice());
    let mut out: Vec<String> = Vec::new();
    let mut i: usize = 0;
    while i < parts.len()
        invariant
            i <= parts.len(),
            str_views(out@) == views(parts@).take(i as int),
        decreases parts.len() - i,
    {
        let piece = from_chars(parts[i].as_slice());
        assert(views(parts@)[i as int] == parts@[i as int]@);
        let ghost before = out@;
        out.push(piece);
        assert(out@ == before.push(piece));
        assert(str_views(out@) =~= str_views(before).push(piece@));
        assert(views(parts@).take(i + 1) =~= views(parts@).take(i as int).push(parts@[i as int]@));
        i = i + 1;
    }
    assert(views(parts@).take(parts.len() as int) =~= views(parts@));
    out
}

} // verus!
