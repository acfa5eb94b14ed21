//! Character sequences: the searches, cuts and rewrites that the trace grammar
//! is built from, each stated over `Seq<char>` and implemented over `Vec<char>`.

use vstd::prelude::*;

verus! {

/// `c` is the first occurrence of itself in `s` at position `i`.
pub open spec fn is_first_index(s: Seq<char>, c: char, i: int) -> bool {
    &&& 0 <= i < s.len()
    &&& s[i] == c
    &&& forall|j: int| 0 <= j < i ==> s[j] != c
}

/// Position of the first `c` in `s`.
pub open spec fn first_index(s: Seq<char>, c: char) -> Option<int> {
    if exists|i: int| is_first_index(s, c, i) {
        Some(choose|i: int| is_first_index(s, c, i))
    } else {
        None
    }
}

/// `c` is the last occurrence of itself in `s` at position `i`.
pub open spec fn is_last_index(s: Seq<char>, c: char, i: int) -> bool {
    &&& 0 <= i < s.len()
    &&& s[i] == c
    &&& forall|j: int| i < j < s.len() ==> s[j] != c
}

/// Position of the last `c` in `s`.
pub open spec fn last_index(s: Seq<char>, c: char) -> Option<int> {
    if exists|i: int| is_last_index(s, c, i) {
        Some(choose|i: int| is_last_index(s, c, i))
    } else {
        None
    }
}

/// `pat` stands in `s` at position `i`.
pub open spec fn occurs_at(s: Seq<char>, pat: Seq<char>, i: int) -> bool {
    &&& 0 <= i
    &&& i + pat.len() <= s.len()
    &&& s.subrange(i, i + pat.len()) == pat
}

/// `pat` stands somewhere in `s`.
pub open spec fn contains_text(s: Seq<char>, pat: Seq<char>) -> bool {
    exists|i: int| occurs_at(s, pat, i)
}

/// `i` is the rightmost position at which `pat` stands in `s`.
pub open spec fn is_last_match(s: Seq<char>, pat: Seq<char>, i: int) -> bool {
    &&& occurs_at(s, pat, i)
    &&& forall|j: int| i < j ==> !occurs_at(s, pat, j)
}

/// Rightmost position at which `pat` stands in `s`.
pub open spec fn last_match(s: Seq<char>, pat: Seq<char>) -> Option<int> {
    if exists|i: int| is_last_match(s, pat, i) {
        Some(choose|i: int| is_last_match(s, pat, i))
    } else {
        None
    }
}

/// Number of occurrences of `c` in `s`.
pub open spec fn count(s: Seq<char>, c: char) -> nat
    decreases s.len(),
{
    if s.len() == 0 {
        0
    } else {
        count(s.drop_last(), c) + if s.last() == c {
            1nat
        } else {
            0nat
        }
    }
}

/// `c` stands in `s` at position `i`, with exactly `n` occurrences before it.
pub open spec fn is_nth_index(s: Seq<char>, c: char, n: nat, i: int) -> bool {
    &&& 0 <= i < s.len()
    &&& s[i] == c
    &&& count(s.take(i), c) == n
}

/// Position of the occurrence of `c` in `s` that exactly `n` others precede.
pub open spec fn nth_index(s: Seq<char>, c: char, n: nat) -> Option<int> {
    if exists|i: int| is_nth_index(s, c, n, i) {
        Some(choose|i: int| is_nth_index(s, c, n, i))
    } else {
        None
    }
}

/// `s` with every occurrence of `from` replaced by `to`, scanning from the
/// left; an occurrence that overlaps the one before it is not seen.
pub open spec fn replace(s: Seq<char>, from: Seq<char>, to: Seq<char>) -> Seq<char>
    decreases s.len(),
{
    if from.len() == 0 || s.len() < from.len() {
        s
    } else if s.subrange(0, from.len() as int) == from {
        to + replace(s.skip(from.len() as int), from, to)
    } else {
        seq![s[0]] + replace(s.skip(1), from, to)
    }
}

/// The characters that count as white space: those with the Unicode property
/// `White_Space`.
pub open spec fn is_whitespace(c: char) -> bool {
    let n = c as u32;
    ||| 0x09 <= n <= 0x0D
    ||| n == 0x20
    ||| n == 0x85
    ||| n == 0xA0
    ||| n == 0x1680
    ||| 0x2000 <= n <= 0x200A
    ||| n == 0x2028
    ||| n == 0x2029
    ||| n == 0x202F
    ||| n == 0x205F
    ||| n == 0x3000
}

/// `s` without its leading white space.
pub open spec fn trim_start(s: Seq<char>) -> Seq<char>
    decreases s.len(),
{
    if s.len() > 0 && is_whitespace(s[0]) {
        trim_start(s.skip(1))
    } else {
        s
    }
}

/// `s` without its trailing white space.
pub open spec fn trim_end(s: Seq<char>) -> Seq<char>
    decreases s.len(),
{
    if s.len() > 0 && is_whitespace(s.last()) {
        trim_end(s.drop_last())
    } else {
        s
    }
}

/// `s` without white space at either end.
pub open spec fn trim(s: Seq<char>) -> Seq<char> {
    trim_end(trim_start(s))
}

/// `s` without the run of `c` it starts with.
pub open spec fn strip_leading(s: Seq<char>, c: char) -> Seq<char>
    decreases s.len(),
{
    if s.len() > 0 && s[0] == c {
        strip_leading(s.skip(1), c)
    } else {
        s
    }
}

/// `s` without its first character, where that is `c`.
pub open spec fn without_first(s: Seq<char>, c: char) -> Seq<char> {
    if s.len() > 0 && s[0] == c {
        s.skip(1)
    } else {
        s
    }
}

/// `s` without its last character, where that is `c`.
pub open spec fn without_last(s: Seq<char>, c: char) -> Seq<char> {
    if s.len() > 0 && s.last() == c {
        s.drop_last()
    } else {
        s
    }
}

/// The pieces of `s` between occurrences of `sep`; always at least one piece.
pub open spec fn split(s: Seq<char>, sep: char) -> Seq<Seq<char>>
    decreases s.len(),
{
    match first_index(s, sep) {
        Some(i) => {
            proof {
                assert(is_first_index(s, sep, i));
            }
            seq![s.take(i)] + split(s.skip(i + 1), sep)
        },
        None => seq![s],
    }
}

/// The first occurrence is unique.
proof fn lemma_first_index(s: Seq<char>, c: char, i: int)
    requires
        is_first_index(s, c, i),
    ensures
        first_index(s, c) == Some(i),
{
    let k = choose|k: int| is_first_index(s, c, k);
    assert(is_first_index(s, c, k));
    if k < i {
        assert(s[k] != c);
    }
    if i < k {
        assert(s[i] != c);
    }
}

/// Where `c` stands nowhere it has no first occurrence.
proof fn lemma_first_index_none(s: Seq<char>, c: char)
    requires
        forall|j: int| 0 <= j < s.len() ==> s[j] != c,
    ensures
        first_index(s, c) is None,
{
}

/// The last occurrence is unique.
proof fn lemma_last_index(s: Seq<char>, c: char, i: int)
    requires
        is_last_index(s, c, i),
    ensures
        last_index(s, c) == Some(i),
{
    let k = choose|k: int| is_last_index(s, c, k);
    assert(is_last_index(s, c, k));
    if k < i {
        assert(s[i] != c);
    }
    if i < k {
        assert(s[k] != c);
    }
}

/// Where `c` stands nowhere it has no last occurrence.
proof fn lemma_last_index_none(s: Seq<char>, c: char)
    requires
        forall|j: int| 0 <= j < s.len() ==> s[j] != c,
    ensures
        last_index(s, c) is None,
{
}

/// The rightmost match is unique.
proof fn lemma_last_match(s: Seq<char>, pat: Seq<char>, i: int)
    requires
        is_last_match(s, pat, i),
    ensures
        last_match(s, pat) == Some(i),
{
    let k = choose|k: int| is_last_match(s, pat, k);
    assert(is_last_match(s, pat, k));
    if k < i {
        assert(!occurs_at(s, pat, i));
    }
    if i < k {
        assert(!occurs_at(s, pat, k));
    }
}

/// Where `pat` stands nowhere it has no rightmost match.
proof fn lemma_last_match_none(s: Seq<char>, pat: Seq<char>)
    requires
        forall|j: int| !occurs_at(s, pat, j),
    ensures
        last_match(s, pat) is None,
{
}

/// Counting over a longer prefix never gives less.
proof fn lemma_count_prefix(s: Seq<char>, c: char, i: int, j: int)
    requires
        0 <= i <= j <= s.len(),
    ensures
        count(s.take(i), c) <= count(s.take(j), c),
        i < j && s[i] == c ==> count(s.take(i), c) < count(s.take(j), c),
    decreases j - i,
{
    if i < j {
        assert(s.take(j).drop_last() == s.take(j - 1));
        lemma_count_prefix(s, c, i, j - 1);
    }
}

/// The occurrence that `n` others precede is unique.
proof fn lemma_nth_index(s: Seq<char>, c: char, n: nat, i: int)
    requires
        is_nth_index(s, c, n, i),
    ensures
        nth_index(s, c, n) == Some(i),
{
    let k = choose|k: int| is_nth_index(s, c, n, k);
    assert(is_nth_index(s, c, n, k));
    if k < i {
        lemma_count_prefix(s, c, k, i);
    }
    if i < k {
        lemma_count_prefix(s, c, i, k);
    }
}

/// With `n` occurrences or fewer there is none that `n` others precede.
proof fn lemma_nth_index_none(s: Seq<char>, c: char, n: nat)
    requires
        count(s, c) <= n,
    ensures
        nth_index(s, c, n) is None,
{
    if exists|i: int| is_nth_index(s, c, n, i) {
        let i = choose|i: int| is_nth_index(s, c, n, i);
        lemma_count_prefix(s, c, i, s.len() as int);
        assert(s.take(s.len() as int) == s);
    }
}


/// `String::push` of the standard library. Trusted: the string afterwards is
/// the string before with `c` added at the end.
pub assume_specification[ String::push ](s: &mut String, c: char)
    ensures
        final(s)@ == old(s)@.push(c),
;

/// The characters of `s`, one element each.
pub fn to_chars(s: &str) -> (out: Vec<char>)
    ensures
        out@ == s@,
{
    let mut out: Vec<char> = Vec::new();
    for c in it: s.chars()
        invariant
            out@ == it.seq().take(it.index()),
            it.seq() == s@,
    {
        out.push(c);
    }
    out
}

/// The string made of the characters of `v`.
pub fn from_chars(v: &Vec<char>) -> (out: String)
    ensures
        out@ == v@,
{
    let mut out = String::new();
    let mut i: usize = 0;
    while i < v.len()
        invariant
            i <= v.len(),
            out@ == v@.take(i as int),
        decreases v.len() - i,
    {
        out.push(v[i]);
        i += 1;
    }
    out
}

/// Appends the characters of `tail` to `out`.
pub fn append(out: &mut Vec<char>, tail: &Vec<char>)
    ensures
        final(out)@ == old(out)@ + tail@,
{
    let mut i: usize = 0;
    while i < tail.len()
        invariant
            i <= tail.len(),
            out@ == old(out)@ + tail@.take(i as int),
        decreases tail.len() - i,
    {
        out.push(tail[i]);
        i += 1;
    }
}

/// Appends the characters of the string `tail` to `out`.
pub fn append_str(out: &mut Vec<char>, tail: &str)
    ensures
        final(out)@ == old(out)@ + tail@,
{
    let chars = to_chars(tail);
    append(out, &chars);
}

/// The characters of `v` from position `from` up to, not including, `to`.
pub fn slice(v: &Vec<char>, from: usize, to: usize) -> (out: Vec<char>)
    requires
        from <= to <= v.len(),
    ensures
        out@ == v@.subrange(from as int, to as int),
{
    let mut out: Vec<char> = Vec::new();
    let mut i: usize = from;
    while i < to
        invariant
            from <= i <= to <= v.len(),
            out@ == v@.subrange(from as int, i as int),
        decreases to - i,
    {
        out.push(v[i]);
        i += 1;
    }
    out
}

/// Finds the first `c` at or after position `from`.
pub fn find_first(v: &Vec<char>, c: char, from: usize) -> (r: Option<usize>)
    requires
        from <= v.len(),
    ensures
        match r {
            Some(i) => from <= i < v.len() && first_index(v@.skip(from as int), c) == Some(
                i - from,
            ),
            None => first_index(v@.skip(from as int), c) is None,
        },
{
    let ghost tail = v@.skip(from as int);
    let mut i: usize = from;
    while i < v.len()
        invariant
            from <= i <= v.len(),
            tail == v@.skip(from as int),
            forall|j: int| 0 <= j < i - from ==> tail[j] != c,
        decreases v.len() - i,
    {
        if v[i] == c {
            proof {
                lemma_first_index(tail, c, i - from);
            }
            return Some(i);
        }
        i += 1;
    }
    proof {
        lemma_first_index_none(tail, c);
    }
    None
}

/// Finds the last `c`.
pub fn find_last(v: &Vec<char>, c: char) -> (r: Option<usize>)
    ensures
        match r {
            Some(i) => i < v.len() && last_index(v@, c) == Some(i as int),
            None => last_index(v@, c) is None,
        },
{
    let mut i: usize = v.len();
    while i > 0
        invariant
            i <= v.len(),
            forall|j: int| i <= j < v.len() ==> v@[j] != c,
        decreases i,
    {
        i -= 1;
        if v[i] == c {
            proof {
                lemma_last_index(v@, c, i as int);
            }
            return Some(i);
        }
    }
    proof {
        lemma_last_index_none(v@, c);
    }
    None
}

/// Whether `pat` stands in `v` at position `i`.
pub fn matches_at(v: &Vec<char>, pat: &Vec<char>, i: usize) -> (b: bool)
    ensures
        b == occurs_at(v@, pat@, i as int),
{
    if pat.len() > v.len() || i > v.len() - pat.len() {
        return false;
    }
    let ghost window = v@.subrange(i as int, i + pat.len());
    let mut k: usize = 0;
    while k < pat.len()
        invariant
            k <= pat.len(),
            i + pat.len() <= v.len(),
            window == v@.subrange(i as int, i + pat.len()),
            forall|j: int| 0 <= j < k ==> window[j] == pat@[j],
        decreases pat.len() - k,
    {
        if v[i + k] != pat[k] {
            assert(window[k as int] != pat@[k as int]);
            return false;
        }
        k += 1;
    }
    assert(window =~= pat@);
    true
}

/// Whether `pat` stands somewhere in `v`.
pub fn contains(v: &Vec<char>, pat: &Vec<char>) -> (b: bool)
    ensures
        b == contains_text(v@, pat@),
{
    if pat.len() > v.len() {
        return false;
    }
    let last: usize = v.len() - pat.len();
    let mut i: usize = 0;
    while i < last
        invariant
            i <= last,
            last == v.len() - pat.len(),
            forall|j: int| 0 <= j < i ==> !occurs_at(v@, pat@, j),
        decreases last - i,
    {
        if matches_at(v, pat, i) {
            return true;
        }
        i += 1;
    }
    matches_at(v, pat, last)
}

/// Finds the rightmost position at which `pat` stands in `v`.
pub fn find_last_match(v: &Vec<char>, pat: &Vec<char>) -> (r: Option<usize>)
    ensures
        match r {
            Some(i) => i + pat.len() <= v.len() && last_match(v@, pat@) == Some(i as int),
            None => last_match(v@, pat@) is None,
        },
{
    if pat.len() > v.len() {
        proof {
            lemma_last_match_none(v@, pat@);
        }
        return None;
    }
    let mut i: usize = v.len() - pat.len();
    if matches_at(v, pat, i) {
        proof {
            lemma_last_match(v@, pat@, i as int);
        }
        return Some(i);
    }
    while i > 0
        invariant
            i <= v.len() - pat.len(),
            pat.len() <= v.len(),
            forall|j: int| i <= j ==> !occurs_at(v@, pat@, j),
        decreases i,
    {
        i -= 1;
        if matches_at(v, pat, i) {
            proof {
                lemma_last_match(v@, pat@, i as int);
            }
            return Some(i);
        }
    }
    proof {
        lemma_last_match_none(v@, pat@);
    }
    None
}

/// Counts the occurrences of `c`.
pub fn count_char(v: &Vec<char>, c: char) -> (n: usize)
    ensures
        n == count(v@, c),
{
    let mut n: usize = 0;
    let mut i: usize = 0;
    while i < v.len()
        invariant
            i <= v.len(),
            n <= i,
            n == count(v@.take(i as int), c),
        decreases v.len() - i,
    {
        assert(v@.take(i + 1).drop_last() == v@.take(i as int));
        if v[i] == c {
            n += 1;
        }
        i += 1;
    }
    assert(v@.take(v.len() as int) == v@);
    n
}

/// Finds the occurrence of `c` that exactly `n` others precede.
pub fn find_nth(v: &Vec<char>, c: char, n: usize) -> (r: Option<usize>)
    ensures
        match r {
            Some(i) => i < v.len() && nth_index(v@, c, n as nat) == Some(i as int),
            None => nth_index(v@, c, n as nat) is None,
        },
{
    let mut seen: usize = 0;
    let mut i: usize = 0;
    while i < v.len()
        invariant
            i <= v.len(),
            seen <= n,
            seen <= i,
            seen == count(v@.take(i as int), c),
        decreases v.len() - i,
    {
        assert(v@.take(i + 1).drop_last() == v@.take(i as int));
        if v[i] == c {
            if seen == n {
                proof {
                    lemma_nth_index(v@, c, n as nat, i as int);
                }
                return Some(i);
            }
            seen += 1;
        }
        i += 1;
    }
    proof {
        assert(v@.take(v.len() as int) == v@);
        lemma_nth_index_none(v@, c, n as nat);
    }
    None
}


/// Replaces every occurrence of `from` by `to`, scanning from the left.
pub fn replace_all(v: &Vec<char>, from: &Vec<char>, to: &Vec<char>) -> (out: Vec<char>)
    ensures
        out@ == replace(v@, from@, to@),
{
    let mut out: Vec<char> = Vec::new();
    if from.len() == 0 || v.len() < from.len() {
        append(&mut out, v);
        return out;
    }
    let last: usize = v.len() - from.len();
    let mut i: usize = 0;
    assert(v@.skip(0) == v@);
    while i <= last
        invariant
            0 < from.len() <= v.len(),
            last == v.len() - from.len(),
            i <= v.len(),
            replace(v@, from@, to@) == out@ + replace(v@.skip(i as int), from@, to@),
        decreases v.len() - i,
    {
        let ghost rest = v@.skip(i as int);
        assert(rest.subrange(0, from.len() as int) == v@.subrange(i as int, i + from.len()));
        if matches_at(v, from, i) {
            assert(rest.skip(from.len() as int) == v@.skip(i + from.len()));
            append(&mut out, to);
            i += from.len();
        } else {
            assert(rest.skip(1) == v@.skip(i + 1));
            out.push(v[i]);
            i += 1;
        }
    }
    let ghost done = out@;
    let tail = slice(v, i, v.len());
    append(&mut out, &tail);
    assert(v@.skip(i as int) == tail@);
    out
}

/// Whether `c` is white space.
pub fn whitespace(c: char) -> (b: bool)
    ensures
        b == is_whitespace(c),
{
    let n: u32 = c as u32;
    (0x09 <= n && n <= 0x0D) || n == 0x20 || n == 0x85 || n == 0xA0 || n == 0x1680 || (0x2000 <= n
        && n <= 0x200A) || n == 0x2028 || n == 0x2029 || n == 0x202F || n == 0x205F || n == 0x3000
}

/// Removes the white space at both ends.
pub fn trimmed(v: &Vec<char>) -> (out: Vec<char>)
    ensures
        out@ == trim(v@),
{
    let mut a: usize = 0;
    assert(v@.skip(0) == v@);
    while a < v.len() && whitespace(v[a])
        invariant
            a <= v.len(),
            trim_start(v@) == trim_start(v@.skip(a as int)),
        decreases v.len() - a,
    {
        assert(v@.skip(a as int).skip(1) == v@.skip(a + 1));
        a += 1;
    }
    let ghost front = v@.skip(a as int);
    assert(trim_start(v@) == front);
    let mut b: usize = v.len();
    assert(v@.subrange(a as int, b as int) == front);
    while b > a && whitespace(v[b - 1])
        invariant
            a <= b <= v.len(),
            front == v@.skip(a as int),
            trim_end(front) == trim_end(v@.subrange(a as int, b as int)),
        decreases b,
    {
        assert(v@.subrange(a as int, b as int).drop_last() == v@.subrange(a as int, b - 1));
        b -= 1;
    }
    slice(v, a, b)
}

/// Removes one `lead` from the start, if there is one, and then one `trail`
/// from the end, if there is one.
pub fn unwrapped(v: &Vec<char>, lead: char, trail: char) -> (out: Vec<char>)
    ensures
        out@ == without_last(without_first(v@, lead), trail),
{
    let from: usize = if v.len() > 0 && v[0] == lead {
        1
    } else {
        0
    };
    let to: usize = if v.len() > from && v[v.len() - 1] == trail {
        v.len() - 1
    } else {
        v.len()
    };
    assert(v@.skip(0) == v@);
    assert(v@.skip(from as int) == v@.subrange(from as int, v.len() as int));
    if v.len() > from {
        assert(v@.skip(from as int).drop_last() == v@.subrange(from as int, v.len() - 1));
        assert(v@.skip(from as int).last() == v@[v.len() - 1]);
    }
    slice(v, from, to)
}

/// The contents of a list of character vectors.
pub open spec fn piece_views(pieces: Seq<Vec<char>>) -> Seq<Seq<char>> {
    Seq::new(pieces.len(), |i: int| pieces[i]@)
}

/// The contents of an optional character vector.
pub open spec fn optional_chars(chars: Option<Vec<char>>) -> Option<Seq<char>> {
    match chars {
        Some(v) => Some(v@),
        None => None,
    }
}

/// Whether `a` and `b` hold the same characters.
pub fn same(a: &Vec<char>, b: &Vec<char>) -> (r: bool)
    ensures
        r == (a@ == b@),
{
    if a.len() != b.len() {
        return false;
    }
    let r = matches_at(a, b, 0);
    assert(a@.subrange(0, a@.len() as int) == a@);
    r
}

/// Cuts `v` at every `sep`.
pub fn split_on(v: &Vec<char>, sep: char) -> (out: Vec<Vec<char>>)
    ensures
        piece_views(out@) == split(v@, sep),
{
    let mut out: Vec<Vec<char>> = Vec::new();
    let mut start: usize = 0;
    let mut done = false;
    assert(v@.skip(0) == v@);
    assert(piece_views(out@) + split(v@, sep) == split(v@, sep));
    while !done
        invariant
            start <= v.len(),
            !done ==> split(v@, sep) == piece_views(out@) + split(v@.skip(start as int), sep),
            done ==> split(v@, sep) == piece_views(out@),
        decreases v.len() - start + if done { 0int } else { 1int },
    {
        let ghost rest = v@.skip(start as int);
        let ghost pieces = piece_views(out@);
        match find_first(v, sep, start) {
            Some(i) => {
                let piece = slice(v, start, i);
                assert(piece@ == rest.take(i - start));
                assert(rest.skip(i - start + 1) == v@.skip(i + 1));
                out.push(piece);
                assert(piece_views(out@) == pieces + seq![rest.take(i - start)]);
                assert(pieces + (seq![rest.take(i - start)] + split(v@.skip(i + 1), sep))
                    == pieces + seq![rest.take(i - start)] + split(v@.skip(i + 1), sep));
                start = i + 1;
            },
            None => {
                let piece = slice(v, start, v.len());
                assert(piece@ == rest);
                out.push(piece);
                assert(piece_views(out@) == pieces + seq![rest]);
                done = true;
            },
        }
    }
    out
}

} // verus!
