//! Character-level text utilities shared by the manifest parser and the
//! installer: trimming, prefix tests, substring search, digit filtering,
//! line splitting and decimal rendering of integers, all specified over
//! `Seq<char>`.

use vstd::prelude::*;

verus! {

use vstd::string::StrSliceExecFns;
use vstd::string::StringExecFns;

/// Relies on `String::push`: appends exactly one character at the end.
#[verifier::external_body]
pub(crate) fn push_char(s: &mut String, c: char)
    ensures
        final(s)@ == old(s)@.push(c),
{
    s.push(c)
}

/// The whitespace characters that trimming removes.
pub open spec fn is_space(c: char) -> bool {
    c == ' ' || c == '\t' || c == '\n' || c == '\r' || c == '\u{b}' || c == '\u{c}'
}

pub fn is_space_char(c: char) -> (r: bool)
    ensures
        r == is_space(c),
{
    c == ' ' || c == '\t' || c == '\n' || c == '\r' || c == '\u{b}' || c == '\u{c}'
}

/// An ASCII decimal digit.
pub open spec fn is_digit(c: char) -> bool {
    '0' <= c && c <= '9'
}

pub fn is_digit_char(c: char) -> (r: bool)
    ensures
        r == is_digit(c),
{
    '0' <= c && c <= '9'
}

pub open spec fn trim_start_spec(s: Seq<char>) -> Seq<char>
    decreases s.len(),
{
    if s.len() > 0 && is_space(s[0]) {
        trim_start_spec(s.drop_first())
    } else {
        s
    }
}

pub open spec fn trim_end_spec(s: Seq<char>) -> Seq<char>
    decreases s.len(),
{
    if s.len() > 0 && is_space(s.last()) {
        trim_end_spec(s.drop_last())
    } else {
        s
    }
}

/// What `trim` leaves: the text with leading and trailing whitespace removed.
pub open spec fn trim_spec(s: Seq<char>) -> Seq<char> {
    trim_end_spec(trim_start_spec(s))
}

proof fn lemma_trim_start_skip(s: Seq<char>, k: int)
    requires
        0 <= k <= s.len(),
        forall|i: int| 0 <= i < k ==> is_space(s[i]),
    ensures
        trim_start_spec(s) == trim_start_spec(s.skip(k)),
    decreases k,
{
    if k > 0 {
        assert(s.drop_first() == s.skip(1));
        lemma_trim_start_skip(s.skip(1), k - 1);
        assert(s.skip(1).skip(k - 1) =~= s.skip(k));
    } else {
        assert(s.skip(0) =~= s);
    }
}

proof fn lemma_trim_end_take(s: Seq<char>, k: int)
    requires
        0 <= k <= s.len(),
        forall|i: int| k <= i < s.len() ==> is_space(s[i]),
    ensures
        trim_end_spec(s) == trim_end_spec(s.take(k)),
    decreases s.len() - k,
{
    if k < s.len() {
        assert(s.drop_last() == s.take(s.len() - 1));
        lemma_trim_end_take(s.take(s.len() - 1), k);
        assert(s.take(s.len() - 1).take(k) =~= s.take(k));
    } else {
        assert(s.take(s.len() as int) =~= s);
    }
}

/// A nonempty trimmed text starts with a non-whitespace character.
pub proof fn lemma_trim_start_first(s: Seq<char>)
    ensures
        trim_start_spec(s).len() > 0 ==> !is_space(trim_start_spec(s)[0]),
    decreases s.len(),
{
    if s.len() > 0 && is_space(s[0]) {
        lemma_trim_start_first(s.drop_first());
    }
}

/// Trimming at the end leaves the first character in place.
pub proof fn lemma_trim_end_first(s: Seq<char>)
    ensures
        trim_end_spec(s).len() > 0 ==> trim_end_spec(s)[0] == s[0],
    decreases s.len(),
{
    if s.len() > 0 && is_space(s.last()) {
        lemma_trim_end_first(s.drop_last());
    }
}

/// Trims leading and trailing whitespace from a character vector.
pub fn trim_chars(s: &Vec<char>) -> (r: Vec<char>)
    ensures
        r@ == trim_spec(s@),
{
    let n: usize = s.len();
    let mut a: usize = 0;
    while a < n && is_space_char(s[a])
        invariant
            0 <= a <= n == s@.len(),
            forall|i: int| 0 <= i < a ==> is_space(s@[i]),
        decreases n - a,
    {
        a += 1;
    }
    proof {
        lemma_trim_start_skip(s@, a as int);
    }
    if a == n {
        proof {
            assert(s@.skip(a as int) =~= Seq::<char>::empty());
            assert(trim_spec(s@) =~= Seq::<char>::empty());
        }
        let r: Vec<char> = Vec::new();
        return r;
    }
    // s[a] is not whitespace, so trim_start_spec(s@) == s@.skip(a)
    assert(trim_start_spec(s@) == s@.skip(a as int));
    let mut b: usize = n;
    while b > a + 1 && is_space_char(s[b - 1])
        invariant
            a < b <= n == s@.len(),
            forall|i: int| b <= i < n ==> is_space(s@[i]),
        decreases b,
    {
        b -= 1;
    }
    // s[b-1] is not whitespace (when b-1 > a, by loop exit; when b-1 == a, by the test above)
    proof {
        let t = s@.skip(a as int);
        assert(forall|i: int| (b - a) <= i < t.len() ==> is_space(t[i]));
        lemma_trim_end_take(t, b - a);
        assert(!is_space(t[b - a - 1]));
        assert(trim_end_spec(t.take(b - a)) == t.take(b - a));
    }
    let mut r: Vec<char> = Vec::new();
    let mut i: usize = a;
    while i < b
        invariant
            a <= i <= b <= s@.len(),
            r@ =~= s@.subrange(a as int, i as int),
        decreases b - i,
    {
        r.push(s[i]);
        i += 1;
    }
    proof {
        assert(r@ =~= s@.skip(a as int).take(b - a));
    }
    r
}

/// Trims leading whitespace only.
pub fn trim_start_chars(s: &Vec<char>) -> (r: Vec<char>)
    ensures
        r@ == trim_start_spec(s@),
{
    let n: usize = s.len();
    let mut a: usize = 0;
    while a < n && is_space_char(s[a])
        invariant
            0 <= a <= n == s@.len(),
            forall|i: int| 0 <= i < a ==> is_space(s@[i]),
        decreases n - a,
    {
        a += 1;
    }
    proof {
        lemma_trim_start_skip(s@, a as int);
    }
    if a == n {
        proof {
            assert(s@.skip(a as int) =~= Seq::<char>::empty());
        }
        let r: Vec<char> = Vec::new();
        proof {
            assert(r@ =~= trim_start_spec(s@));
        }
        return r;
    }
    let r = subvec(s, a, n);
    proof {
        assert(s@.skip(a as int) =~= s@.subrange(a as int, n as int));
        assert(s@.skip(a as int)[0] == s@[a as int]);
    }
    r
}

/// The views of a sequence of strings.
pub open spec fn str_views(v: Seq<String>) -> Seq<Seq<char>> {
    v.map_values(|s: String| s@)
}

/// Whether `p` is a prefix of `s`.
pub open spec fn starts_with_spec(s: Seq<char>, p: Seq<char>) -> bool {
    p.len() <= s.len() && s.take(p.len() as int) == p
}

/// Whether `p` occurs in `s` starting at position `at`.
pub open spec fn matches_at(s: Seq<char>, p: Seq<char>, at: int) -> bool {
    0 <= at && at + p.len() <= s.len() && s.subrange(at, at + p.len()) == p
}

pub fn match_at_chars(s: &Vec<char>, p: &Vec<char>, at: usize) -> (r: bool)
    ensures
        r == matches_at(s@, p@, at as int),
{
    if at > s.len() || p.len() > s.len() - at {
        return false;
    }
    let mut j: usize = 0;
    while j < p.len()
        invariant
            0 <= j <= p@.len(),
            at + p.len() <= s.len(),
            forall|i: int| 0 <= i < j ==> s@[at + i] == p@[i],
        decreases p.len() - j,
    {
        proof {
            assert(at + j < s@.len());
        }
        if s[at + j] != p[j] {
            return false;
        }
        j += 1;
    }
    proof {
        assert(s@.subrange(at as int, at + p@.len()) =~= p@);
    }
    true
}

pub fn starts_with_chars(s: &Vec<char>, p: &Vec<char>) -> (r: bool)
    ensures
        r == starts_with_spec(s@, p@),
{
    let r = match_at_chars(s, p, 0);
    proof {
        if matches_at(s@, p@, 0) {
            assert(s@.subrange(0, p@.len() as int) =~= s@.take(p@.len() as int));
        } else if starts_with_spec(s@, p@) {
            assert(s@.subrange(0, p@.len() as int) =~= s@.take(p@.len() as int));
        }
    }
    r
}

/// The position of the first occurrence of `c` in `s` at or after `from`,
/// or -1 if there is none.
pub open spec fn find_char(s: Seq<char>, c: char, from: int) -> int
    decreases s.len() - from,
{
    if !(0 <= from < s.len()) {
        -1
    } else if s[from] == c {
        from
    } else {
        find_char(s, c, from + 1)
    }
}

proof fn lemma_find_char_at(s: Seq<char>, c: char, from: int, k: int)
    requires
        0 <= from <= k < s.len(),
        s[k] == c,
        forall|i: int| from <= i < k ==> s[i] != c,
    ensures
        find_char(s, c, from) == k,
    decreases k - from,
{
    if from < k {
        lemma_find_char_at(s, c, from + 1, k);
    }
}

proof fn lemma_find_char_none(s: Seq<char>, c: char, from: int)
    requires
        0 <= from <= s.len(),
        forall|i: int| from <= i < s.len() ==> s[i] != c,
    ensures
        find_char(s, c, from) == -1,
    decreases s.len() - from,
{
    if from < s.len() {
        lemma_find_char_none(s, c, from + 1);
    }
}

pub fn find_char_in(s: &Vec<char>, c: char, from: usize) -> (r: Option<usize>)
    ensures
        (r matches Some(k) ==> find_char(s@, c, from as int) == k as int && from <= k < s.len()
            && s@[k as int] == c),
        (r is None ==> find_char(s@, c, from as int) == -1),
{
    let mut i: usize = from;
    if i > s.len() {
        proof {
            assert(find_char(s@, c, from as int) == -1);
        }
        return None;
    }
    while i < s.len()
        invariant
            from <= i <= s@.len(),
            forall|j: int| from <= j < i ==> s@[j] != c,
        decreases s.len() - i,
    {
        if s[i] == c {
            proof {
                lemma_find_char_at(s@, c, from as int, i as int);
            }
            return Some(i);
        }
        i += 1;
    }
    proof {
        lemma_find_char_none(s@, c, from as int);
    }
    None
}

/// The position of the first occurrence of `p` in `s`, or -1 if there is none.
pub open spec fn find_sub(s: Seq<char>, p: Seq<char>, from: int) -> int
    decreases s.len() - from,
{
    if !(0 <= from && from + p.len() <= s.len()) {
        -1
    } else if s.subrange(from, from + p.len()) == p {
        from
    } else if from >= s.len() {
        -1
    } else {
        find_sub(s, p, from + 1)
    }
}

proof fn lemma_find_sub_at(s: Seq<char>, p: Seq<char>, from: int, k: int)
    requires
        0 <= from <= k,
        matches_at(s, p, k),
        forall|i: int| from <= i < k ==> !matches_at(s, p, i),
    ensures
        find_sub(s, p, from) == k,
    decreases k - from,
{
    if from < k {
        assert(!matches_at(s, p, from));
        lemma_find_sub_at(s, p, from + 1, k);
    }
}

proof fn lemma_find_sub_none(s: Seq<char>, p: Seq<char>, from: int)
    requires
        0 <= from,
        p.len() > 0,
        forall|i: int| from <= i ==> !matches_at(s, p, i),
    ensures
        find_sub(s, p, from) == -1,
    decreases s.len() - from,
{
    assert(!matches_at(s, p, from));
    if from + p.len() <= s.len() {
        lemma_find_sub_none(s, p, from + 1);
    }
}

pub fn find_sub_in(s: &Vec<char>, p: &Vec<char>) -> (r: Option<usize>)
    requires
        p@.len() > 0,
    ensures
        (r matches Some(k) ==> find_sub(s@, p@, 0) == k as int && matches_at(s@, p@, k as int)),
        (r is None ==> find_sub(s@, p@, 0) == -1),
{
    if p.len() > s.len() {
        proof {
            lemma_find_sub_none(s@, p@, 0);
        }
        return None;
    }
    let bound: usize = s.len() - p.len();
    let mut i: usize = 0;
    while i <= bound
        invariant
            0 <= i <= bound + 1,
            bound == s.len() - p.len(),
            p.len() >= 1,
            forall|j: int| 0 <= j < i ==> !matches_at(s@, p@, j),
        decreases bound + 1 - i,
    {
        if match_at_chars(s, p, i) {
            proof {
                lemma_find_sub_at(s@, p@, 0, i as int);
            }
            return Some(i);
        }
        i += 1;
    }
    proof {
        assert(forall|j: int| 0 <= j ==> !matches_at(s@, p@, j));
        lemma_find_sub_none(s@, p@, 0);
    }
    None
}

/// The decimal digits of `s`, in order, with every other character removed.
pub open spec fn digits_of(s: Seq<char>) -> Seq<char>
    decreases s.len(),
{
    if s.len() == 0 {
        Seq::empty()
    } else if is_digit(s.last()) {
        digits_of(s.drop_last()).push(s.last())
    } else {
        digits_of(s.drop_last())
    }
}

pub fn digits_of_chars(s: &Vec<char>) -> (r: Vec<char>)
    ensures
        r@ == digits_of(s@),
{
    let mut r: Vec<char> = Vec::new();
    let mut i: usize = 0;
    while i < s.len()
        invariant
            0 <= i <= s@.len(),
            r@ == digits_of(s@.take(i as int)),
        decreases s.len() - i,
    {
        proof {
            assert(s@.take(i + 1).drop_last() =~= s@.take(i as int));
            assert(s@.take(i + 1).last() == s@[i as int]);
        }
        if is_digit_char(s[i]) {
            r.push(s[i]);
        }
        i += 1;
    }
    proof {
        assert(s@.take(s@.len() as int) =~= s@);
    }
    r
}

/// The pieces of `s` between newline characters. There is always at least
/// one piece; the text after the last newline is the final piece.
pub open spec fn split_lines(s: Seq<char>) -> Seq<Seq<char>>
    decreases s.len(),
{
    let k = find_char(s, '\n', 0);
    if !(0 <= k < s.len()) {
        seq![s]
    } else {
        seq![s.take(k)] + split_lines(s.skip(k + 1))
    }
}

/// The views of a sequence of character vectors.
pub open spec fn views_of(v: Seq<Vec<char>>) -> Seq<Seq<char>> {
    v.map_values(|x: Vec<char>| x@)
}

proof fn lemma_split_lines_step(s: Seq<char>, k: int)
    requires
        0 <= k < s.len(),
        s[k] == '\n',
        forall|i: int| 0 <= i < k ==> s[i] != '\n',
    ensures
        split_lines(s) == seq![s.take(k)] + split_lines(s.skip(k + 1)),
{
    lemma_find_char_at(s, '\n', 0, k);
}

proof fn lemma_split_lines_last(s: Seq<char>)
    requires
        forall|i: int| 0 <= i < s.len() ==> s[i] != '\n',
    ensures
        split_lines(s) == seq![s],
{
    lemma_find_char_none(s, '\n', 0);
}

/// Copies `s[a..b]` into a fresh vector.
pub fn subvec(s: &Vec<char>, a: usize, b: usize) -> (r: Vec<char>)
    requires
        a <= b <= s@.len(),
    ensures
        r@ == s@.subrange(a as int, b as int),
{
    let mut r: Vec<char> = Vec::new();
    let mut i: usize = a;
    while i < b
        invariant
            a <= i <= b <= s@.len(),
            r@ =~= s@.subrange(a as int, i as int),
        decreases b - i,
    {
        r.push(s[i]);
        i += 1;
    }
    proof {
        assert(r@ =~= s@.subrange(a as int, b as int));
    }
    r
}

/// Splits `s` at newline characters.
pub fn split_lines_chars(s: &Vec<char>) -> (r: Vec<Vec<char>>)
    ensures
        views_of(r@) == split_lines(s@),
{
    let mut r: Vec<Vec<char>> = Vec::new();
    let mut start: usize = 0;
    let mut i: usize = 0;
    proof {
        assert(s@.skip(0) =~= s@);
        assert(views_of(r@) =~= Seq::<Seq<char>>::empty());
        assert(views_of(r@) + split_lines(s@.skip(0)) =~= split_lines(s@));
    }
    while i < s.len()
        invariant
            0 <= start <= i <= s@.len(),
            forall|j: int| start <= j < i ==> s@[j] != '\n',
            views_of(r@) + split_lines(s@.skip(start as int)) =~= split_lines(s@),
        decreases s.len() - i,
    {
        if s[i] == '\n' {
            let piece = subvec(s, start, i);
            proof {
                let t = s@.skip(start as int);
                assert(forall|j: int| 0 <= j < (i - start) ==> t[j] == s@[start + j] && t[j]
                    != '\n');
                lemma_split_lines_step(t, i - start);
                assert(t.take(i - start) =~= s@.subrange(start as int, i as int));
                assert(t.skip(i - start + 1) =~= s@.skip(i + 1));
                assert(views_of(r@.push(piece)) =~= views_of(r@).push(piece@));
            }
            r.push(piece);
            start = i + 1;
            proof {
                assert(views_of(r@) + split_lines(s@.skip(start as int)) =~= split_lines(s@));
            }
        }
        i += 1;
    }
    let tail = subvec(s, start, s.len());
    proof {
        let t = s@.skip(start as int);
        assert(forall|j: int| 0 <= j < t.len() ==> t[j] == s@[start + j] && t[j] != '\n');
        lemma_split_lines_last(t);
        assert(tail@ =~= t);
        assert(views_of(r@.push(tail)) =~= views_of(r@).push(tail@));
    }
    r.push(tail);
    proof {
        assert(views_of(r@) =~= split_lines(s@));
    }
    r
}

/// The characters of `s`, as a vector.
pub fn chars_of(s: &str) -> (r: Vec<char>)
    ensures
        r@ == s@,
{
    let n: usize = s.unicode_len();
    let mut r: Vec<char> = Vec::new();
    let mut i: usize = 0;
    while i < n
        invariant
            0 <= i <= n == s@.len(),
            r@ =~= s@.take(i as int),
        decreases n - i,
    {
        r.push(s.get_char(i));
        i += 1;
    }
    proof {
        assert(r@ =~= s@);
    }
    r
}

/// A string holding exactly the characters of `s`.
pub fn string_from_chars(s: &Vec<char>) -> (r: String)
    ensures
        r@ == s@,
{
    let mut r = String::new();
    let mut i: usize = 0;
    while i < s.len()
        invariant
            0 <= i <= s@.len(),
            r@ =~= s@.take(i as int),
        decreases s.len() - i,
    {
        push_char(&mut r, s[i]);
        i += 1;
    }
    proof {
        assert(r@ =~= s@);
    }
    r
}

/// Appends the characters of `b` to `a`.
pub fn concat_chars(a: Vec<char>, b: &Vec<char>) -> (r: Vec<char>)
    ensures
        r@ == a@ + b@,
{
    let mut r = a;
    let ghost a0 = r@;
    let mut i: usize = 0;
    while i < b.len()
        invariant
            0 <= i <= b@.len(),
            r@ =~= a0 + b@.take(i as int),
        decreases b.len() - i,
    {
        r.push(b[i]);
        i += 1;
    }
    proof {
        assert(r@ =~= a0 + b@);
    }
    r
}

/// Whether two character vectors hold the same characters.
pub fn eq_chars(a: &Vec<char>, b: &Vec<char>) -> (r: bool)
    ensures
        r == (a@ == b@),
{
    if a.len() != b.len() {
        return false;
    }
    let r = match_at_chars(a, b, 0);
    proof {
        if matches_at(a@, b@, 0) {
            assert(a@.subrange(0, b@.len() as int) =~= a@);
        } else if a@ == b@ {
            assert(a@.subrange(0, b@.len() as int) =~= b@);
        }
    }
    r
}

/// The code point of `c` with an ASCII upper-case letter folded to lower
/// case.
pub open spec fn lower_code(c: char) -> int {
    if 'A' <= c && c <= 'Z' {
        c as int + 32
    } else {
        c as int
    }
}

fn lower_code_of(c: char) -> (r: u32)
    ensures
        r == lower_code(c),
{
    if 'A' <= c && c <= 'Z' {
        c as u32 + 32
    } else {
        c as u32
    }
}

/// Whether `p` is a prefix of `s` up to ASCII case.
pub open spec fn starts_with_ci(s: Seq<char>, p: Seq<char>) -> bool {
    p.len() <= s.len() && forall|i: int| 0 <= i < p.len() ==> lower_code(s[i]) == lower_code(p[i])
}

fn starts_with_ci_chars(s: &Vec<char>, p: &Vec<char>) -> (r: bool)
    ensures
        r == starts_with_ci(s@, p@),
{
    if p.len() > s.len() {
        return false;
    }
    let mut i: usize = 0;
    while i < p.len()
        invariant
            0 <= i <= p@.len() <= s@.len(),
            forall|j: int| 0 <= j < i ==> lower_code(s@[j]) == lower_code(p@[j]),
        decreases p.len() - i,
    {
        if lower_code_of(s[i]) != lower_code_of(p[i]) {
            return false;
        }
        i += 1;
    }
    true
}

/// Whether a manifest source specifier names a URL rather than a file path:
/// it starts, case-insensitively, with a web scheme.
pub open spec fn looks_like_url_spec(s: Seq<char>) -> bool {
    starts_with_ci(s, "http://"@) || starts_with_ci(s, "https://"@)
}

/// Whether a manifest source specifier names a URL rather than a file path.
pub fn looks_like_url(spec_text: &str) -> (r: bool)
    ensures
        r == looks_like_url_spec(spec_text@),
{
    let cs = chars_of(spec_text);
    let p1 = chars_of("http://");
    let p2 = chars_of("https://");
    starts_with_ci_chars(&cs, &p1) || starts_with_ci_chars(&cs, &p2)
}

/// The character for one decimal digit value.
pub open spec fn digit_char(d: int) -> char {
    if d == 0 {
        '0'
    } else if d == 1 {
        '1'
    } else if d == 2 {
        '2'
    } else if d == 3 {
        '3'
    } else if d == 4 {
        '4'
    } else if d == 5 {
        '5'
    } else if d == 6 {
        '6'
    } else if d == 7 {
        '7'
    } else if d == 8 {
        '8'
    } else {
        '9'
    }
}

/// The decimal digit characters of a natural number, most significant first.
pub open spec fn dec_chars(n: nat) -> Seq<char>
    decreases n,
{
    if n < 10 {
        seq![digit_char(n as int)]
    } else {
        dec_chars(n / 10).push(digit_char((n % 10) as int))
    }
}

/// The decimal rendering of an integer, with a leading minus sign when negative.
pub open spec fn int_chars(n: int) -> Seq<char> {
    if n < 0 {
        seq!['-'] + dec_chars((-n) as nat)
    } else {
        dec_chars(n as nat)
    }
}

fn digit_char_exec(d: u64) -> (r: char)
    requires
        d < 10,
    ensures
        r == digit_char(d as int),
{
    if d == 0 {
        '0'
    } else if d == 1 {
        '1'
    } else if d == 2 {
        '2'
    } else if d == 3 {
        '3'
    } else if d == 4 {
        '4'
    } else if d == 5 {
        '5'
    } else if d == 6 {
        '6'
    } else if d == 7 {
        '7'
    } else if d == 8 {
        '8'
    } else {
        '9'
    }
}

/// The decimal rendering of `n`.
pub fn u64_string(n: u64) -> (r: String)
    ensures
        r@ == dec_chars(n as nat),
    decreases n,
{
    if n < 10 {
        let mut r = String::new();
        push_char(&mut r, digit_char_exec(n));
        proof {
            assert(r@ =~= seq![digit_char(n as int)]);
        }
        r
    } else {
        let mut r = u64_string(n / 10);
        push_char(&mut r, digit_char_exec(n % 10));
        r
    }
}

/// The decimal rendering of `n`, signed.
pub fn i32_string(n: i32) -> (r: String)
    ensures
        r@ == int_chars(n as int),
{
    if n >= 0 {
        u64_string(n as u64)
    } else {
        let mag: u64 = (-(n as i64)) as u64;
        let mut r = String::from_str("-");
        let digits = u64_string(mag);
        r.append(digits.as_str());
        proof {
            reveal_strlit("-");
            assert(r@ =~= seq!['-'] + dec_chars((-(n as int)) as nat));
        }
        r
    }
}

} // verus!
