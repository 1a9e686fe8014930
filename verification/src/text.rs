//! Character-level text primitives shared by the SQL readers and the naming
//! helpers: ASCII case folding, substring search, trimming and token
//! extraction, each stated over `Seq<char>`.
use vstd::prelude::*;
use vstd::string::StringExecFns;

verus! {

/// Whether `c` has the Unicode `White_Space` property, as
/// `char::is_whitespace` reports it: tab to carriage return, space, next
/// line, no-break space, ogham space mark, the spaces from en quad to hair
/// space, line and paragraph separator, narrow no-break space, medium
/// mathematical space and ideographic space.
pub open spec fn char_is_whitespace(c: char) -> bool {
    let n = c as u32;
    ||| 9 <= n <= 13
    ||| n == 0x20
    ||| n == 0x85
    ||| n == 0xA0
    ||| n == 0x1680
    ||| 0x2000 <= n <= 0x200A
    ||| n == 0x2028
    ||| n == 0x2029
    ||| n == 0x202F
    ||| n == 0x205F
    ||| n == 0x3000
}

/// Whether `c` is alphabetic or numeric in the Unicode sense, as `char::is_alphanumeric` reports it.
pub uninterp spec fn char_is_alphanumeric(c: char) -> bool;

/// Calls `char::is_whitespace`; the result is the Unicode `White_Space`
/// property of `c`, which `char_is_whitespace` spells out.
#[verifier::external_body]
pub(crate) fn is_whitespace(c: char) -> (r: bool)
    ensures
        r == char_is_whitespace(c),
{
    c.is_whitespace()
}

/// The lower-case form of `s` as `str::to_lowercase` gives it: every
/// character's Unicode lower-case mapping, a capital sigma at the end of a
/// word becoming the final sigma.
pub uninterp spec fn lowercase(s: Seq<char>) -> Seq<char>;

/// Calls `str::to_lowercase`; the result is the Unicode lower-case form of
/// `s`, which the contract names and does not spell out.
#[verifier::external_body]
pub(crate) fn to_lowercase(s: &str) -> (r: String)
    ensures
        r@ == lowercase(s@),
{
    s.to_lowercase()
}

/// Calls `char::is_alphanumeric`; the result is whether `c` is alphabetic or
/// numeric in the Unicode sense, which the contract names and does not spell out.
#[verifier::external_body]
pub(crate) fn is_alphanumeric(c: char) -> (r: bool)
    ensures
        r == char_is_alphanumeric(c),
{
    c.is_alphanumeric()
}

/// Builds a `String` from its characters with `FromIterator<char>`; the
/// string holds exactly those characters in order.
#[verifier::external_body]
pub(crate) fn string_from_chars(v: &Vec<char>) -> (s: String)
    ensures
        s@ == v@,
{
    v.iter().collect()
}

/// ASCII case folding of one character: `A`..=`Z` become `a`..=`z`.
pub open spec fn lower_char(c: char) -> char {
    if 'A' <= c && c <= 'Z' {
        ((c as u32) + 32) as char
    } else {
        c
    }
}

/// ASCII case folding of a whole sequence, position by position.
pub open spec fn lower_seq(s: Seq<char>) -> Seq<char> {
    Seq::new(s.len(), |i: int| lower_char(s[i]))
}

/// An ASCII digit `0`..=`9`.
pub open spec fn is_digit(c: char) -> bool {
    '0' <= c && c <= '9'
}

/// `pat` occurs in `s` starting at position `i`.
pub open spec fn matches_at(s: Seq<char>, pat: Seq<char>, i: int) -> bool {
    &&& 0 <= i
    &&& i + pat.len() <= s.len()
    &&& forall|k: int| 0 <= k < pat.len() ==> #[trigger] s[i + k] == pat[k]
}

/// First position `>= start` at which `pat` occurs in `s`.
pub open spec fn find_from(s: Seq<char>, pat: Seq<char>, start: int) -> Option<int>
    decreases s.len() - start,
{
    if start < 0 || start + pat.len() > s.len() {
        None
    } else if matches_at(s, pat, start) {
        Some(start)
    } else {
        find_from(s, pat, start + 1)
    }
}

/// Last position `< bound` at which `pat` occurs in `s`.
pub open spec fn rfind_before(s: Seq<char>, pat: Seq<char>, bound: int) -> Option<int>
    decreases bound,
{
    if bound <= 0 {
        None
    } else if matches_at(s, pat, bound - 1) {
        Some(bound - 1)
    } else {
        rfind_before(s, pat, bound - 1)
    }
}

/// Last position at which `pat` occurs in `s` (what `str::rfind` reports).
pub open spec fn rfind(s: Seq<char>, pat: Seq<char>) -> Option<int> {
    rfind_before(s, pat, s.len() + 1int)
}

/// Position of the first character of `s` at or after `i` that satisfies
/// `char_is_whitespace`, or `s.len()` when there is none.
pub open spec fn first_ws_from(s: Seq<char>, i: int) -> int
    decreases s.len() - i,
{
    if i >= s.len() || i < 0 {
        s.len() as int
    } else if char_is_whitespace(s[i]) {
        i
    } else {
        first_ws_from(s, i + 1)
    }
}

/// `s` without its leading whitespace (`str::trim_start`).
pub open spec fn trim_start(s: Seq<char>) -> Seq<char>
    decreases s.len(),
{
    if s.len() > 0 && char_is_whitespace(s[0]) {
        trim_start(s.drop_first())
    } else {
        s
    }
}

/// `s` without its trailing whitespace (`str::trim_end`).
pub open spec fn trim_end(s: Seq<char>) -> Seq<char>
    decreases s.len(),
{
    if s.len() > 0 && char_is_whitespace(s.last()) {
        trim_end(s.drop_last())
    } else {
        s
    }
}

/// `s` without leading and trailing whitespace (`str::trim`).
pub open spec fn trim(s: Seq<char>) -> Seq<char> {
    trim_end(trim_start(s))
}

/// `s` with every occurrence of `c` removed.
pub open spec fn remove_char(s: Seq<char>, c: char) -> Seq<char> {
    s.filter(|x: char| x != c)
}

/// `s` with both kinds of quote characters removed.
pub open spec fn strip_quotes(s: Seq<char>) -> Seq<char> {
    remove_char(remove_char(s, '"'), '\'')
}

/// Length of the longest prefix of `s`, from position `i`, whose characters all satisfy `p`.
pub open spec fn span_while(s: Seq<char>, i: int, p: spec_fn(char) -> bool) -> int
    decreases s.len() - i,
{
    if i < 0 || i >= s.len() || !p(s[i]) {
        0
    } else {
        1 + span_while(s, i + 1, p)
    }
}

/// Position of the first character of `s` at or after `i` that satisfies
/// `p`, or `s.len()` when there is none.
pub open spec fn first_from(s: Seq<char>, i: int, p: spec_fn(char) -> bool) -> int
    decreases s.len() - i,
{
    if i < 0 || i >= s.len() {
        s.len() as int
    } else if p(s[i]) {
        i
    } else {
        first_from(s, i + 1, p)
    }
}

/// Identifier characters: alphanumeric or `_`.
pub open spec fn is_ident_char(c: char) -> bool {
    char_is_alphanumeric(c) || c == '_'
}

/// Lower-cases one character the ASCII way.
pub fn to_lower(c: char) -> (r: char)
    ensures
        r == lower_char(c),
{
    if 'A' <= c && c <= 'Z' {
        let v: u32 = c as u32;
        assert(65 <= v <= 90);
        let b: u8 = (v + 32) as u8;
        b as char
    } else {
        c
    }
}

/// The characters of a string slice, in order.
pub fn chars_of(s: &str) -> (v: Vec<char>)
    ensures
        v@ == s@,
{
    let mut v: Vec<char> = Vec::new();
    for c in it: s.chars()
        invariant
            v@ == it.seq().take(it.index() as int),
    {
        v.push(c);
    }
    v
}

/// ASCII lower-case copy of `s`.
pub fn lower_vec(s: &Vec<char>) -> (r: Vec<char>)
    ensures
        r@ == lower_seq(s@),
{
    let mut r: Vec<char> = Vec::new();
    let mut i: usize = 0;
    while i < s.len()
        invariant
            i <= s.len(),
            r@ == lower_seq(s@).take(i as int),
        decreases s.len() - i,
    {
        let c = to_lower(s[i]);
        r.push(c);
        i = i + 1;
        assert(r@ =~= lower_seq(s@).take(i as int));
    }
    assert(r@ =~= lower_seq(s@));
    r
}

/// Whether `pat` occurs in `s` at position `i`.
pub fn matches_at_exec(s: &Vec<char>, pat: &Vec<char>, i: usize) -> (r: bool)
    ensures
        r == matches_at(s@, pat@, i as int),
{
    if i > s.len() || pat.len() > s.len() - i {
        return false;
    }
    let mut k: usize = 0;
    while k < pat.len()
        invariant
            k <= pat.len(),
            i + pat.len() <= s.len(),
            forall|j: int| 0 <= j < k ==> #[trigger] s@[i + j] == pat@[j],
        decreases pat.len() - k,
    {
        if s[i + k] != pat[k] {
            assert(s@[i + k as int] != pat@[k as int]);
            return false;
        }
        k = k + 1;
    }
    true
}

/// First occurrence of `pat` at or after `start` (`str::find` on a suffix).
pub fn find_from_exec(s: &Vec<char>, pat: &Vec<char>, start: usize) -> (r: Option<usize>)
    ensures
        match r {
            Some(p) => find_from(s@, pat@, start as int) == Some(p as int),
            None => find_from(s@, pat@, start as int) is None,
        },
{
    let mut i: usize = start;
    while i <= s.len() && pat.len() <= s.len() - i
        invariant
            start <= i,
            find_from(s@, pat@, start as int) == find_from(s@, pat@, i as int),
        decreases s.len() + 1 - i,
    {
        if matches_at_exec(s, pat, i) {
            return Some(i);
        }
        i = i + 1;
    }
    None
}

/// Last occurrence of `pat` in `s` (`str::rfind`).
pub fn rfind_exec(s: &Vec<char>, pat: &Vec<char>) -> (r: Option<usize>)
    ensures
        match r {
            Some(p) => rfind(s@, pat@) == Some(p as int),
            None => rfind(s@, pat@) is None,
        },
{
    if matches_at_exec(s, pat, s.len()) {
        return Some(s.len());
    }
    let mut b: usize = s.len();
    while b > 0
        invariant
            b <= s.len() + 1,
            rfind(s@, pat@) == rfind_before(s@, pat@, b as int),
        decreases b,
    {
        if matches_at_exec(s, pat, b - 1) {
            return Some(b - 1);
        }
        b = b - 1;
    }
    None
}

/// Copy of `s[from..to]`.
pub fn slice_vec(s: &Vec<char>, from: usize, to: usize) -> (r: Vec<char>)
    requires
        from <= to <= s.len(),
    ensures
        r@ == s@.subrange(from as int, to as int),
{
    let mut r: Vec<char> = Vec::new();
    let mut i: usize = from;
    while i < to
        invariant
            from <= i <= to,
            to <= s.len(),
            r@ == s@.subrange(from as int, i as int),
        decreases to - i,
    {
        r.push(s[i]);
        i = i + 1;
        assert(r@ =~= s@.subrange(from as int, i as int));
    }
    r
}

proof fn lemma_trim_start_skip(s: Seq<char>, i: int)
    requires
        0 <= i <= s.len(),
        forall|k: int| 0 <= k < i ==> char_is_whitespace(#[trigger] s[k]),
    ensures
        trim_start(s) == trim_start(s.skip(i)),
    decreases i,
{
    if i > 0 {
        assert(char_is_whitespace(s[0]));
        lemma_trim_start_skip(s.drop_first(), i - 1);
        assert(s.drop_first().skip(i - 1) =~= s.skip(i));
    } else {
        assert(s.skip(0) =~= s);
    }
}

proof fn lemma_trim_end_take(s: Seq<char>, j: int)
    requires
        0 <= j <= s.len(),
        forall|k: int| j <= k < s.len() ==> char_is_whitespace(#[trigger] s[k]),
    ensures
        trim_end(s) == trim_end(s.take(j)),
    decreases s.len() - j,
{
    if j < s.len() {
        assert(char_is_whitespace(s.last()));
        lemma_trim_end_take(s.drop_last(), j);
        assert(s.drop_last().take(j) =~= s.take(j));
    } else {
        assert(s.take(j) =~= s);
    }
}

/// Bounds `(a, b)` such that `s[a..b]` is `s` trimmed of whitespace.
pub fn trim_bounds(s: &Vec<char>, from: usize, to: usize) -> (r: (usize, usize))
    requires
        from <= to <= s.len(),
    ensures
        from <= r.0 <= r.1 <= to,
        s@.subrange(r.0 as int, r.1 as int) == trim(s@.subrange(from as int, to as int)),
{
    let ghost t = s@.subrange(from as int, to as int);
    let mut a: usize = from;
    while a < to && is_whitespace(s[a])
        invariant
            from <= a <= to,
            to <= s.len(),
            t == s@.subrange(from as int, to as int),
            forall|k: int| from <= k < a ==> char_is_whitespace(#[trigger] s@[k]),
        decreases to - a,
    {
        a = a + 1;
    }
    proof {
        assert forall|k: int| 0 <= k < a - from implies char_is_whitespace(#[trigger] t[k]) by {
            assert(t[k] == s@[from + k]);
        }
        lemma_trim_start_skip(t, a - from);
        assert(t.skip(a - from) =~= s@.subrange(a as int, to as int));
        let u = s@.subrange(a as int, to as int);
        if a < to {
            assert(!char_is_whitespace(u[0]));
        }
        assert(trim_start(u) == u);
    }
    let mut b: usize = to;
    while b > a && is_whitespace(s[b - 1])
        invariant
            from <= a <= b <= to,
            to <= s.len(),
            forall|k: int| b <= k < to ==> char_is_whitespace(#[trigger] s@[k]),
        decreases b - a,
    {
        b = b - 1;
    }
    proof {
        let u = s@.subrange(a as int, to as int);
        assert forall|k: int| b - a <= k < u.len() implies char_is_whitespace(#[trigger] u[k]) by {
            assert(u[k] == s@[a + k]);
        }
        lemma_trim_end_take(u, b - a);
        let w = u.take(b - a);
        assert(w =~= s@.subrange(a as int, b as int));
        if b > a {
            assert(w.last() == s@[b - 1]);
            assert(!char_is_whitespace(w.last()));
        }
        assert(trim_end(w) == w);
    }
    (a, b)
}

/// `s[from..to]` trimmed of whitespace, as a new vector.
pub fn trim_vec(s: &Vec<char>, from: usize, to: usize) -> (r: Vec<char>)
    requires
        from <= to <= s.len(),
    ensures
        r@ == trim(s@.subrange(from as int, to as int)),
{
    let (a, b) = trim_bounds(s, from, to);
    slice_vec(s, a, b)
}

/// `s` with every `c` removed.
pub fn remove_char_vec(s: &Vec<char>, c: char) -> (r: Vec<char>)
    ensures
        r@ == remove_char(s@, c),
{
    let mut r: Vec<char> = Vec::new();
    let mut i: usize = 0;
    while i < s.len()
        invariant
            i <= s.len(),
            r@ == remove_char(s@.take(i as int), c),
        decreases s.len() - i,
    {
        proof {
            reveal_with_fuel(Seq::filter, 1);
            assert(s@.take(i + 1 as int).drop_last() =~= s@.take(i as int));
        }
        if s[i] != c {
            r.push(s[i]);
        }
        i = i + 1;
    }
    assert(s@.take(s.len() as int) =~= s@);
    r
}

/// `s` with both quote characters removed.
pub fn strip_quotes_vec(s: &Vec<char>) -> (r: Vec<char>)
    ensures
        r@ == strip_quotes(s@),
{
    let a = remove_char_vec(s, '"');
    remove_char_vec(&a, '\'')
}

/// Whether `s` holds `c` at some position.
pub fn contains_char(s: &Vec<char>, c: char) -> (r: bool)
    ensures
        r == s@.contains(c),
{
    let mut i: usize = 0;
    while i < s.len()
        invariant
            i <= s.len(),
            forall|k: int| 0 <= k < i ==> s@[k] != c,
        decreases s.len() - i,
    {
        if s[i] == c {
            assert(s@[i as int] == c);
            return true;
        }
        i = i + 1;
    }
    false
}

/// Whether two character vectors hold the same characters.
pub fn eq_chars(a: &Vec<char>, b: &Vec<char>) -> (r: bool)
    ensures
        r == (a@ == b@),
{
    if a.len() != b.len() {
        return false;
    }
    let mut i: usize = 0;
    while i < a.len()
        invariant
            i <= a.len(),
            a.len() == b.len(),
            forall|k: int| 0 <= k < i ==> a@[k] == b@[k],
        decreases a.len() - i,
    {
        if a[i] != b[i] {
            return false;
        }
        i = i + 1;
    }
    assert(a@ =~= b@);
    true
}

/// The text of an optional string slice.
pub open spec fn opt_text(o: Option<&str>) -> Option<Seq<char>> {
    match o {
        Some(s) => Some(s@),
        None => None,
    }
}

/// Whether two string slices hold the same characters.
pub fn same_text(a: &str, b: &str) -> (r: bool)
    ensures
        r == (a@ == b@),
{
    let x = chars_of(a);
    let y = chars_of(b);
    eq_chars(&x, &y)
}

/// `prefix` followed by `detail`.
pub fn joined(prefix: &str, detail: &str) -> (r: String)
    ensures
        r@ == prefix@ + detail@,
{
    let mut r = String::from_str(prefix);
    r.append(detail);
    r
}

/// The fields of `s` between occurrences of `sep`, as `str::split` yields
/// them: one more field than there are separators, empty fields included.
pub open spec fn split_on(s: Seq<char>, sep: char) -> Seq<Seq<char>>
    decreases s.len(),
{
    if s.len() == 0 {
        seq![Seq::<char>::empty()]
    } else {
        let rest = split_on(s.drop_last(), sep);
        if s.last() == sep {
            rest.push(Seq::<char>::empty())
        } else {
            rest.update(rest.len() - 1, rest.last().push(s.last()))
        }
    }
}

/// The fields of `s` between occurrences of `sep`.
pub fn split_chars(s: &str, sep: char) -> (r: Vec<Vec<char>>)
    ensures
        r@.len() == split_on(s@, sep).len(),
        forall|i: int| 0 <= i < r@.len() ==> #[trigger] r@[i]@ == split_on(s@, sep)[i],
{
    let c = chars_of(s);
    let mut fields: Vec<Vec<char>> = Vec::new();
    fields.push(Vec::new());
    let mut i: usize = 0;
    assert(c@.take(0) =~= Seq::<char>::empty());
    while i < c.len()
        invariant
            i <= c.len(),
            c@ == s@,
            fields@.len() >= 1,
            fields@.len() == split_on(c@.take(i as int), sep).len(),
            forall|k: int| 0 <= k < fields@.len() ==> #[trigger] fields@[k]@ == split_on(c@.take(i as int), sep)[k],
        decreases c.len() - i,
    {
        let ghost before = c@.take(i as int);
        assert(c@.take(i + 1).drop_last() =~= before);
        assert(c@.take(i + 1).last() == c@[i as int]);
        if c[i] == sep {
            fields.push(Vec::new());
        } else {
            let last = fields.len() - 1;
            let mut f = fields.remove(last);
            f.push(c[i]);
            fields.push(f);
        }
        i = i + 1;
    }
    assert(c@.take(c@.len() as int) =~= s@);
    fields
}

/// Index one past the whitespace characters that start at `i`.
pub fn skip_ws(s: &Vec<char>, i: usize) -> (r: usize)
    requires
        i <= s.len(),
    ensures
        r == i + span_while(s@, i as int, |c: char| char_is_whitespace(c)),
        r <= s.len(),
{
    let ghost p = |c: char| char_is_whitespace(c);
    let mut j: usize = i;
    while j < s.len() && is_whitespace(s[j])
        invariant
            i <= j <= s.len(),
            span_while(s@, i as int, p) == (j - i) + span_while(s@, j as int, p),
            p == (|c: char| char_is_whitespace(c)),
        decreases s.len() - j,
    {
        assert(p(s@[j as int]));
        j = j + 1;
    }
    j
}

/// Index one past the identifier characters that start at `i`.
pub fn ident_end(s: &Vec<char>, i: usize) -> (r: usize)
    requires
        i <= s.len(),
    ensures
        r == i + span_while(s@, i as int, |c: char| is_ident_char(c)),
        r <= s.len(),
{
    let ghost p = |c: char| is_ident_char(c);
    let mut j: usize = i;
    while j < s.len() && (is_alphanumeric(s[j]) || s[j] == '_')
        invariant
            i <= j <= s.len(),
            span_while(s@, i as int, p) == (j - i) + span_while(s@, j as int, p),
            p == (|c: char| is_ident_char(c)),
        decreases s.len() - j,
    {
        assert(p(s@[j as int]));
        j = j + 1;
    }
    j
}

} // verus!
