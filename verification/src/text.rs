//! Character-level string operations with their mathematical meaning.
//!
//! Strings are modelled by their view, a `Seq<char>`.  Every operation here
//! states its result over that view.
use vstd::prelude::*;

verus! {

broadcast use vstd::string::group_string_axioms;

// ---------------------------------------------------------------------------
// Specifications
// ---------------------------------------------------------------------------

/// Unicode `White_Space`, the set that `char::is_whitespace` and `str::trim` use.
pub open spec fn is_ws(c: char) -> bool {
    let u: u32 = c as u32;
    ||| 0x09 <= u <= 0x0D
    ||| u == 0x20
    ||| u == 0x85
    ||| u == 0xA0
    ||| u == 0x1680
    ||| 0x2000 <= u <= 0x200A
    ||| u == 0x2028
    ||| u == 0x2029
    ||| u == 0x202F
    ||| u == 0x205F
    ||| u == 0x3000
}

/// `s` without its leading white space.
pub open spec fn trim_start(s: Seq<char>) -> Seq<char>
    decreases s.len(),
{
    if s.len() > 0 && is_ws(s[0]) {
        trim_start(s.drop_first())
    } else {
        s
    }
}

/// `s` without its trailing white space.
pub open spec fn trim_end(s: Seq<char>) -> Seq<char>
    decreases s.len(),
{
    if s.len() > 0 && is_ws(s.last()) {
        trim_end(s.drop_last())
    } else {
        s
    }
}

/// `s` without leading and trailing white space (what `str::trim` returns).
pub open spec fn trim(s: Seq<char>) -> Seq<char> {
    trim_end(trim_start(s))
}

/// ASCII upper-case letters mapped to lower case; every other character kept.
pub open spec fn lower_char(c: char) -> char {
    if 'A' <= c && c <= 'Z' {
        ((c as u32) + 32) as char
    } else {
        c
    }
}

/// What `str::to_ascii_lowercase` returns.
pub open spec fn ascii_lower(s: Seq<char>) -> Seq<char> {
    s.map_values(|c: char| lower_char(c))
}

/// `pat` occurs in `s` starting at position `i`.
pub open spec fn occurs_at(s: Seq<char>, pat: Seq<char>, i: int) -> bool {
    0 <= i && pat.is_prefix_of(s.skip(i))
}

/// `pat` occurs somewhere in `s` (what `str::contains` answers).
pub open spec fn contains_sub(s: Seq<char>, pat: Seq<char>) -> bool {
    exists|i: int| 0 <= i <= s.len() && #[trigger] occurs_at(s, pat, i)
}

/// Every occurrence of the non-empty `pat` in `s`, found left to right without
/// overlap, replaced by `rep` (what `str::replace` returns).
pub open spec fn replace_all(s: Seq<char>, pat: Seq<char>, rep: Seq<char>) -> Seq<char>
    decreases s.len(),
{
    if pat.len() == 0 || s.len() == 0 {
        s
    } else if pat.is_prefix_of(s) {
        rep + replace_all(s.skip(pat.len() as int), pat, rep)
    } else {
        seq![s[0]] + replace_all(s.skip(1), pat, rep)
    }
}

/// The decimal digit `d` as a character.
pub open spec fn digit_char(d: nat) -> char {
    (d + 48) as char
}

/// The decimal representation of `n`, without sign or leading zeros.
pub open spec fn decimal(n: nat) -> Seq<char>
    decreases n,
{
    if n < 10 {
        seq![digit_char(n)]
    } else {
        decimal(n / 10).push(digit_char(n % 10))
    }
}

/// The elements of `list` joined by `sep` (what `[String]::join` returns).
pub open spec fn join(list: Seq<Seq<char>>, sep: Seq<char>) -> Seq<char>
    decreases list.len(),
{
    if list.len() == 0 {
        Seq::empty()
    } else if list.len() == 1 {
        list[0]
    } else {
        join(list.drop_last(), sep) + sep + list.last()
    }
}

/// The index of the first `c` in `s`, if there is one.
pub open spec fn first_index_of(s: Seq<char>, c: char) -> Option<int> {
    if exists|i: int| 0 <= i < s.len() && s[i] == c {
        Some(choose|i: int| 0 <= i < s.len() && s[i] == c && forall|j: int| 0 <= j < i ==> s[j] != c)
    } else {
        None
    }
}

// ---------------------------------------------------------------------------
// Lemmas
// ---------------------------------------------------------------------------

proof fn lemma_first_index_exists(s: Seq<char>, c: char, k: int)
    requires
        0 <= k < s.len(),
        s[k] == c,
    ensures
        exists|i: int| 0 <= i < s.len() && s[i] == c && forall|j: int| 0 <= j < i ==> s[j] != c,
    decreases k,
{
    if exists|j: int| 0 <= j < k && s[j] == c {
        let j = choose|j: int| 0 <= j < k && s[j] == c;
        lemma_first_index_exists(s, c, j);
    }
}

/// The first index is unique.
pub proof fn lemma_first_index_unique(s: Seq<char>, c: char, k: int)
    requires
        0 <= k < s.len(),
        s[k] == c,
        forall|j: int| 0 <= j < k ==> s[j] != c,
    ensures
        first_index_of(s, c) == Some(k),
{
    lemma_first_index_exists(s, c, k);
    let i = choose|i: int| 0 <= i < s.len() && s[i] == c && forall|j: int| 0 <= j < i ==> s[j] != c;
    assert(!(i < k));
    assert(!(k < i));
}

/// An occurrence of `pat` after the first character is an occurrence in the rest.
proof fn lemma_occurs_in_rest(s: Seq<char>, pat: Seq<char>, i: int)
    requires
        1 <= i <= s.len(),
        occurs_at(s, pat, i),
    ensures
        occurs_at(s.skip(1), pat, i - 1),
{
    assert(s.skip(1).skip(i - 1) =~= s.skip(i));
}

/// An occurrence in `t` is an occurrence in `t` with a character put in front.
proof fn lemma_occurs_after_prefix(c: char, t: Seq<char>, rep: Seq<char>, j: int)
    requires
        0 <= j <= t.len(),
        occurs_at(t, rep, j),
    ensures
        occurs_at(seq![c] + t, rep, j + 1),
{
    assert((seq![c] + t).skip(j + 1) =~= t.skip(j));
}

/// Replacing a pattern that occurs in `s` leaves the replacement in the result.
pub proof fn lemma_replacement_present(s: Seq<char>, pat: Seq<char>, rep: Seq<char>)
    requires
        pat.len() > 0,
        contains_sub(s, pat),
    ensures
        contains_sub(replace_all(s, pat, rep), rep),
    decreases s.len(),
{
    let i = choose|i: int| 0 <= i <= s.len() && #[trigger] occurs_at(s, pat, i);
    let r = replace_all(s, pat, rep);
    if s.len() == 0 {
        assert(pat.is_prefix_of(s.skip(i)));
        assert(false);
    } else if pat.is_prefix_of(s) {
        assert(r == rep + replace_all(s.skip(pat.len() as int), pat, rep));
        assert(occurs_at(r, rep, 0)) by {
            assert(r.skip(0).subrange(0, rep.len() as int) =~= rep);
        }
    } else {
        assert(i != 0) by {
            if i == 0 {
                assert(s.skip(0) =~= s);
            }
        }
        lemma_occurs_in_rest(s, pat, i);
        assert(contains_sub(s.skip(1), pat)) by {
            assert(occurs_at(s.skip(1), pat, i - 1));
        }
        lemma_replacement_present(s.skip(1), pat, rep);
        let t = replace_all(s.skip(1), pat, rep);
        let j = choose|j: int| 0 <= j <= t.len() && #[trigger] occurs_at(t, rep, j);
        lemma_occurs_after_prefix(s[0], t, rep, j);
        assert(r == seq![s[0]] + t);
        assert(occurs_at(r, rep, j + 1));
    }
}

/// Lower-casing works character by character, so it distributes over `+`.
pub proof fn lemma_lower_concat(a: Seq<char>, b: Seq<char>)
    ensures
        ascii_lower(a + b) == ascii_lower(a) + ascii_lower(b),
{
    assert(ascii_lower(a + b) =~= ascii_lower(a) + ascii_lower(b));
}

/// An occurrence in a part of `a + b` is an occurrence in `a + b`.
pub proof fn lemma_contains_in_part(a: Seq<char>, b: Seq<char>, w: Seq<char>)
    ensures
        contains_sub(a, w) ==> contains_sub(a + b, w),
        contains_sub(b, w) ==> contains_sub(a + b, w),
{
    if contains_sub(a, w) {
        let i = choose|i: int| 0 <= i <= a.len() && #[trigger] occurs_at(a, w, i);
        assert(occurs_at(a + b, w, i)) by {
            assert((a + b).skip(i).subrange(0, w.len() as int) =~= a.skip(i).subrange(
                0,
                w.len() as int,
            ));
        }
    }
    if contains_sub(b, w) {
        let j = choose|j: int| 0 <= j <= b.len() && #[trigger] occurs_at(b, w, j);
        assert(occurs_at(a + b, w, a.len() + j)) by {
            assert((a + b).skip(a.len() + j) =~= b.skip(j));
        }
    }
}

/// No occurrence of `w` in `a + b` starts in `a` and ends in `b`.
pub open spec fn no_seam_occurrence(a: Seq<char>, b: Seq<char>, w: Seq<char>) -> bool {
    forall|i: int| 0 <= i < a.len() < i + w.len() ==> !#[trigger] occurs_at(a + b, w, i)
}

/// Two parts without `w`, joined where no occurrence crosses, hold no `w`.
pub proof fn lemma_concat_clear(a: Seq<char>, b: Seq<char>, w: Seq<char>)
    requires
        !contains_sub(a, w),
        !contains_sub(b, w),
        no_seam_occurrence(a, b, w),
    ensures
        !contains_sub(a + b, w),
{
    if contains_sub(a + b, w) {
        let i = choose|i: int| 0 <= i <= (a + b).len() && #[trigger] occurs_at(a + b, w, i);
        if i + w.len() <= a.len() {
            assert(occurs_at(a, w, i)) by {
                assert(a.skip(i).subrange(0, w.len() as int) =~= (a + b).skip(i).subrange(
                    0,
                    w.len() as int,
                ));
            }
        } else if i >= a.len() {
            assert(occurs_at(b, w, i - a.len())) by {
                assert(b.skip(i - a.len()) =~= (a + b).skip(i));
            }
        }
    }
}

/// From position `i` on, no position of `a` starts an occurrence of `w` that runs
/// past the end of `a`: judged by the first two characters of `w`.
pub open spec fn tail_clear(a: Seq<char>, w: Seq<char>, i: int) -> bool
    decreases a.len() - i,
{
    if i >= a.len() || i < 0 {
        true
    } else {
        !(a[i] == w[0] && (i + 1 < a.len() ==> a[i + 1] == w[1])) && tail_clear(a, w, i + 1)
    }
}

/// From position `k` of `w` on, `b` does not start with the rest of `w`: judged by
/// two characters.
pub open spec fn head_clear(b: Seq<char>, w: Seq<char>, k: int) -> bool
    decreases w.len() - k,
{
    if k >= w.len() || k < 1 {
        true
    } else {
        !(b[0] == w[k] && (k + 1 < w.len() ==> b[1] == w[k + 1])) && head_clear(b, w, k + 1)
    }
}

proof fn lemma_tail_clear_at(a: Seq<char>, w: Seq<char>, i: int, j: int)
    requires
        0 <= i <= j < a.len(),
        tail_clear(a, w, i),
    ensures
        !(a[j] == w[0] && (j + 1 < a.len() ==> a[j + 1] == w[1])),
    decreases j - i,
{
    if i < j {
        lemma_tail_clear_at(a, w, i + 1, j);
    }
}

proof fn lemma_head_clear_at(b: Seq<char>, w: Seq<char>, k: int, j: int)
    requires
        1 <= k <= j < w.len(),
        head_clear(b, w, k),
    ensures
        !(b[0] == w[j] && (j + 1 < w.len() ==> b[1] == w[j + 1])),
    decreases j - k,
{
    if k < j {
        lemma_head_clear_at(b, w, k + 1, j);
    }
}

/// The end of `a` cannot start `w`, so no occurrence crosses into `b`.
pub proof fn lemma_seam_by_tail(a: Seq<char>, b: Seq<char>, w: Seq<char>)
    requires
        w.len() >= 2,
        tail_clear(a, w, if a.len() + 1 > w.len() { a.len() + 1 - w.len() } else { 0 }),
    ensures
        no_seam_occurrence(a, b, w),
{
    let start: int = if a.len() + 1 > w.len() { a.len() + 1 - w.len() } else { 0 };
    assert forall|i: int| 0 <= i < a.len() < i + w.len() implies !#[trigger] occurs_at(
        a + b,
        w,
        i,
    ) by {
        lemma_tail_clear_at(a, w, start, i);
        if occurs_at(a + b, w, i) {
            assert((a + b).skip(i)[0] == w[0]);
            assert((a + b).skip(i)[1] == w[1]);
        }
    }
}

/// The start of `b` cannot end `w`, so no occurrence crosses into it.
pub proof fn lemma_seam_by_head(a: Seq<char>, b: Seq<char>, w: Seq<char>)
    requires
        b.len() >= 2,
        head_clear(b, w, 1),
    ensures
        no_seam_occurrence(a, b, w),
{
    assert forall|i: int| 0 <= i < a.len() < i + w.len() implies !#[trigger] occurs_at(
        a + b,
        w,
        i,
    ) by {
        let k: int = a.len() - i;
        lemma_head_clear_at(b, w, 1, k);
        if occurs_at(a + b, w, i) {
            assert((a + b).skip(i)[k] == w[k]);
            if k + 1 < w.len() {
                assert((a + b).skip(i)[k + 1] == w[k + 1]);
            }
        }
    }
}

/// Trimming keeps a lower-cased text free of `w`.
pub proof fn lemma_trim_keeps_clear(s: Seq<char>, w: Seq<char>)
    requires
        !contains_sub(ascii_lower(s), w),
    ensures
        !contains_sub(ascii_lower(trim(s)), w),
{
    lemma_trim_start_keeps_clear(s, w);
    lemma_trim_end_keeps_clear(trim_start(s), w);
}

proof fn lemma_trim_start_keeps_clear(s: Seq<char>, w: Seq<char>)
    requires
        !contains_sub(ascii_lower(s), w),
    ensures
        !contains_sub(ascii_lower(trim_start(s)), w),
    decreases s.len(),
{
    if s.len() > 0 && is_ws(s[0]) {
        assert(s =~= s.take(1) + s.drop_first());
        lemma_lower_concat(s.take(1), s.drop_first());
        lemma_contains_in_part(ascii_lower(s.take(1)), ascii_lower(s.drop_first()), w);
        lemma_trim_start_keeps_clear(s.drop_first(), w);
    }
}

proof fn lemma_trim_end_keeps_clear(s: Seq<char>, w: Seq<char>)
    requires
        !contains_sub(ascii_lower(s), w),
    ensures
        !contains_sub(ascii_lower(trim_end(s)), w),
    decreases s.len(),
{
    if s.len() > 0 && is_ws(s.last()) {
        assert(s =~= s.drop_last() + s.subrange(s.len() - 1, s.len() as int));
        lemma_lower_concat(s.drop_last(), s.subrange(s.len() - 1, s.len() as int));
        lemma_contains_in_part(
            ascii_lower(s.drop_last()),
            ascii_lower(s.subrange(s.len() - 1, s.len() as int)),
            w,
        );
        lemma_trim_end_keeps_clear(s.drop_last(), w);
    }
}

// ---------------------------------------------------------------------------
// Executable operations
// ---------------------------------------------------------------------------

/// Appends one character at the end of `s` (`String::push`).
#[verifier::external_body]
fn push_char(s: &mut String, c: char)
    ensures
        final(s)@ == old(s)@.push(c),
{
    s.push(c);
}

/// The characters of `s`, in order.
pub fn chars_of(s: &str) -> (v: Vec<char>)
    ensures
        v@ == s@,
{
    let mut v: Vec<char> = Vec::new();
    for c in it: s.chars()
        invariant
            v@ == it.seq().take(it.index()),
            it.seq() == s@,
    {
        v.push(c);
    }
    v
}

/// A `String` holding the characters `v`.
pub fn string_from_chars(v: &Vec<char>) -> (s: String)
    ensures
        s@ == v@,
{
    let mut s = String::new();
    let mut i: usize = 0;
    while i < v.len()
        invariant
            i <= v.len(),
            s@ == v@.take(i as int),
        decreases v.len() - i,
    {
        push_char(&mut s, v[i]);
        assert(v@.take(i as int).push(v@[i as int]) =~= v@.take(i + 1));
        i = i + 1;
    }
    assert(v@.take(v.len() as int) =~= v@);
    s
}

/// An owned copy of `s`.
pub fn owned(s: &str) -> (r: String)
    ensures
        r@ == s@,
{
    s.to_owned()
}

/// `a` followed by `b`.
pub fn concat(a: &str, b: &str) -> (r: String)
    ensures
        r@ == a@ + b@,
{
    let mut r = a.to_owned();
    r.append(b);
    r
}

/// Appends `t` at the end of `s`.
pub fn push_str(s: &mut String, t: &str)
    ensures
        final(s)@ == old(s)@ + t@,
{
    s.append(t);
}

/// Whether the two character sequences are equal.
pub fn chars_eq(a: &Vec<char>, b: &Vec<char>) -> (r: bool)
    ensures
        r == (a@ == b@),
{
    if a.len() != b.len() {
        return false;
    }
    let mut i: usize = 0;
    while i < a.len()
        invariant
            a.len() == b.len(),
            i <= a.len(),
            forall|j: int| 0 <= j < i ==> a@[j] == b@[j],
        decreases a.len() - i,
    {
        if a[i] != b[i] {
            return false;
        }
        i = i + 1;
    }
    assert(a@ =~= b@);
    true
}

/// Whether the two strings hold the same characters.
pub fn str_eq(a: &str, b: &str) -> (r: bool)
    ensures
        r == (a@ == b@),
{
    chars_eq(&chars_of(a), &chars_of(b))
}

/// Whether `pat` occurs in `s` at position `i`.
pub fn occurs_at_exec(s: &Vec<char>, pat: &Vec<char>, i: usize) -> (r: bool)
    requires
        i <= s.len(),
    ensures
        r == occurs_at(s@, pat@, i as int),
{
    if pat.len() > s.len() - i {
        return false;
    }
    let mut j: usize = 0;
    while j < pat.len()
        invariant
            i + pat.len() <= s.len(),
            j <= pat.len(),
            forall|k: int| 0 <= k < j ==> s@[i + k] == pat@[k],
        decreases pat.len() - j,
    {
        if s[i + j] != pat[j] {
            assert(s@.skip(i as int)[j as int] != pat@[j as int]);
            return false;
        }
        j = j + 1;
    }
    assert(pat@ =~= s@.skip(i as int).subrange(0, pat@.len() as int));
    true
}

/// Whether `prefix` starts `s` (`str::starts_with`).
pub fn starts_with(s: &Vec<char>, prefix: &str) -> (r: bool)
    ensures
        r == prefix@.is_prefix_of(s@),
{
    let p = chars_of(prefix);
    let r = occurs_at_exec(s, &p, 0);
    assert(s@.skip(0) =~= s@);
    r
}

/// Whether `suffix` ends `s` (`str::ends_with`).
pub fn ends_with(s: &Vec<char>, suffix: &str) -> (r: bool)
    ensures
        r == suffix@.is_suffix_of(s@),
{
    let p = chars_of(suffix);
    if p.len() > s.len() {
        return false;
    }
    let k: usize = s.len() - p.len();
    let r = occurs_at_exec(s, &p, k);
    assert(s@.skip(k as int) =~= s@.subrange(k as int, s@.len() as int));
    r
}

/// Whether `pat` occurs anywhere in `s` (`str::contains`).
pub fn contains(s: &Vec<char>, pat: &str) -> (r: bool)
    ensures
        r == contains_sub(s@, pat@),
{
    let p = chars_of(pat);
    let mut i: usize = 0;
    loop
        invariant
            p@ == pat@,
            i <= s.len(),
            forall|k: int| 0 <= k < i ==> !#[trigger] occurs_at(s@, p@, k),
        decreases s.len() - i,
    {
        if occurs_at_exec(s, &p, i) {
            return true;
        }
        if i == s.len() {
            return false;
        }
        i = i + 1;
    }
}

/// Whether `pat` occurs anywhere in the string `s`.
pub fn str_contains(s: &str, pat: &str) -> (r: bool)
    ensures
        r == contains_sub(s@, pat@),
{
    contains(&chars_of(s), pat)
}

/// Whether `suffix` ends the string `s`.
pub fn str_ends_with(s: &str, suffix: &str) -> (r: bool)
    ensures
        r == suffix@.is_suffix_of(s@),
{
    ends_with(&chars_of(s), suffix)
}

/// The index of the first `c` in `s` (`str::find` with a character).
pub fn find_char(s: &Vec<char>, c: char) -> (r: Option<usize>)
    ensures
        match r {
            Some(i) => first_index_of(s@, c) == Some(i as int) && i < s@.len() && s@[i as int]
                == c,
            None => first_index_of(s@, c) is None,
        },
{
    let mut i: usize = 0;
    while i < s.len()
        invariant
            i <= s.len(),
            forall|j: int| 0 <= j < i ==> s@[j] != c,
        decreases s.len() - i,
    {
        if s[i] == c {
            proof {
                lemma_first_index_unique(s@, c, i as int);
            }
            return Some(i);
        }
        i = i + 1;
    }
    None
}

/// The characters `s[from..to]`.
pub fn slice_chars(s: &Vec<char>, from: usize, to: usize) -> (r: Vec<char>)
    requires
        from <= to <= s.len(),
    ensures
        r@ == s@.subrange(from as int, to as int),
{
    let mut r: Vec<char> = Vec::new();
    let mut i: usize = from;
    while i < to
        invariant
            from <= i <= to <= s.len(),
            r@ == s@.subrange(from as int, i as int),
        decreases to - i,
    {
        r.push(s[i]);
        assert(s@.subrange(from as int, i as int).push(s@[i as int]) =~= s@.subrange(from as int, i + 1));
        i = i + 1;
    }
    r
}

/// Every occurrence of the non-empty `pat` in `s` replaced by `rep` (`str::replace`).
pub fn replace(s: &str, pat: &str, rep: &str) -> (r: String)
    requires
        pat@.len() > 0,
    ensures
        r@ == replace_all(s@, pat@, rep@),
{
    let sv = chars_of(s);
    let pv = chars_of(pat);
    let mut out = String::new();
    let mut i: usize = 0;
    assert(sv@.skip(0) =~= sv@);
    while i < sv.len()
        invariant
            sv@ == s@,
            pv@ == pat@,
            pv@.len() > 0,
            i <= sv.len(),
            out@ + replace_all(sv@.skip(i as int), pv@, rep@) == replace_all(sv@, pv@, rep@),
        decreases sv.len() - i,
    {
        let ghost rest = sv@.skip(i as int);
        if occurs_at_exec(&sv, &pv, i) {
            assert(rest.skip(pv@.len() as int) =~= sv@.skip(i + pv@.len()));
            push_str(&mut out, rep);
            i = i + pv.len();
            assert(out@ + replace_all(sv@.skip(i as int), pv@, rep@) =~= replace_all(sv@, pv@, rep@));
        } else {
            assert(rest.skip(1) =~= sv@.skip(i + 1));
            assert(rest[0] == sv@[i as int]);
            push_char(&mut out, sv[i]);
            i = i + 1;
            assert(out@ + replace_all(sv@.skip(i as int), pv@, rep@) =~= replace_all(sv@, pv@, rep@));
        }
    }
    assert(sv@.skip(i as int) =~= Seq::<char>::empty());
    assert(out@ =~= out@ + replace_all(sv@.skip(i as int), pv@, rep@));
    out
}

/// `s` with every ASCII upper-case letter turned to lower case (`str::to_ascii_lowercase`).
pub fn to_ascii_lowercase(s: &str) -> (r: String)
    ensures
        r@ == ascii_lower(s@),
{
    let sv = chars_of(s);
    let mut out = String::new();
    let mut i: usize = 0;
    while i < sv.len()
        invariant
            sv@ == s@,
            i <= sv.len(),
            out@ == ascii_lower(sv@.take(i as int)),
        decreases sv.len() - i,
    {
        let c = sv[i];
        let l = if 'A' <= c && c <= 'Z' {
            ((c as u8) + 32) as char
        } else {
            c
        };
        push_char(&mut out, l);
        assert(ascii_lower(sv@.take(i as int)).push(lower_char(c)) =~= ascii_lower(sv@.take(i + 1)));
        i = i + 1;
    }
    assert(sv@.take(sv.len() as int) =~= sv@);
    out
}

/// Whether `c` is Unicode white space (`char::is_whitespace`).
pub fn is_whitespace(c: char) -> (r: bool)
    ensures
        r == is_ws(c),
{
    let u: u32 = c as u32;
    (0x09 <= u && u <= 0x0D) || u == 0x20 || u == 0x85 || u == 0xA0 || u == 0x1680 || (0x2000
        <= u && u <= 0x200A) || u == 0x2028 || u == 0x2029 || u == 0x202F || u == 0x205F || u
        == 0x3000
}

/// `s` without leading and trailing white space (`str::trim`).
pub fn trim_chars(s: &Vec<char>) -> (r: Vec<char>)
    ensures
        r@ == trim(s@),
{
    let mut a: usize = 0;
    assert(s@.skip(0) =~= s@);
    while a < s.len() && is_whitespace(s[a])
        invariant
            a <= s.len(),
            trim_start(s@.skip(a as int)) == trim_start(s@),
        decreases s.len() - a,
    {
        assert(s@.skip(a as int).drop_first() =~= s@.skip(a + 1));
        a = a + 1;
    }
    assert(trim_start(s@.skip(a as int)) == s@.skip(a as int));
    let mut b: usize = s.len();
    while b > a && is_whitespace(s[b - 1])
        invariant
            a <= b <= s.len(),
            trim_end(s@.subrange(a as int, b as int)) == trim(s@),
            trim_start(s@) == s@.skip(a as int),
        decreases b - a,
    {
        assert(s@.subrange(a as int, b as int).drop_last() =~= s@.subrange(a as int, b - 1));
        b = b - 1;
    }
    assert(trim_end(s@.subrange(a as int, b as int)) == s@.subrange(a as int, b as int));
    slice_chars(s, a, b)
}

/// The string `s` without leading and trailing white space (`str::trim`).
pub fn str_trim(s: &str) -> (r: String)
    ensures
        r@ == trim(s@),
{
    string_from_chars(&trim_chars(&chars_of(s)))
}

/// Appends the decimal representation of `n` at the end of `s`.
pub fn push_decimal(s: &mut String, n: u64)
    ensures
        final(s)@ == old(s)@ + decimal(n as nat),
    decreases n,
{
    if n >= 10 {
        push_decimal(s, n / 10);
    }
    let d: u8 = (n % 10) as u8;
    let c = (48u8 + d) as char;
    push_char(s, c);
    assert(final(s)@ =~= old(s)@ + decimal(n as nat));
}

/// The decimal representation of `n` (`u64::to_string`).
pub fn decimal_string(n: u64) -> (s: String)
    ensures
        s@ == decimal(n as nat),
{
    let mut s = String::new();
    push_decimal(&mut s, n);
    assert(s@ =~= decimal(n as nat));
    s
}

/// The elements of `list` joined by `sep` (`[String]::join`).
pub fn join_strings(list: &Vec<String>, sep: &str) -> (r: String)
    ensures
        r@ == join(list@.map_values(|s: String| s@), sep@),
{
    let ghost views = list@.map_values(|s: String| s@);
    let mut r = String::new();
    let mut i: usize = 0;
    while i < list.len()
        invariant
            views == list@.map_values(|s: String| s@),
            i <= list.len(),
            r@ == join(views.take(i as int), sep@),
        decreases list.len() - i,
    {
        if i > 0 {
            push_str(&mut r, sep);
        }
        push_str(&mut r, list[i].as_str());
        assert(views.take(i + 1).drop_last() =~= views.take(i as int));
        assert(views.take(i + 1).last() == list@[i as int]@);
        i = i + 1;
    }
    assert(views.take(list.len() as int) =~= views);
    r
}

/// The view of an optional string slice.
pub open spec fn opt_view(o: Option<&str>) -> Option<Seq<char>> {
    match o {
        Some(s) => Some(s@),
        None => None,
    }
}

/// The view of an optional owned string.
pub open spec fn opt_string_view(o: Option<String>) -> Option<Seq<char>> {
    match o {
        Some(s) => Some(s@),
        None => None,
    }
}

/// Borrows the string held in `o` (`Option::as_deref`).
pub fn opt_as_str(o: &Option<String>) -> (r: Option<&str>)
    ensures
        opt_view(r) == opt_string_view(*o),
{
    match o {
        Some(s) => Some(s.as_str()),
        None => None,
    }
}

} // verus!
