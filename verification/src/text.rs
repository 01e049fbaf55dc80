//! Character-level utilities shared by the normalizer, the decoder and the
//! history heuristics: character classes, conversions between `&str` and
//! `Vec<char>`, and searching and trimming over character sequences.

use vstd::prelude::*;

verus! {

/// The White_Space code points, the set `str::trim` removes at the edges.
pub open spec fn is_space_char(c: char) -> bool {
    ||| c == ' '
    ||| c == '\t'
    ||| c == '\n'
    ||| c == '\r'
    ||| c as u32 == 0x0B
    ||| c as u32 == 0x0C
    ||| c as u32 == 0x85
    ||| c as u32 == 0xA0
    ||| c as u32 == 0x1680
    ||| (0x2000 <= c as u32 && c as u32 <= 0x200A)
    ||| c as u32 == 0x2028
    ||| c as u32 == 0x2029
    ||| c as u32 == 0x202F
    ||| c as u32 == 0x205F
    ||| c as u32 == 0x3000
}

/// Whether `c` is a control character (the Cc category).
pub open spec fn is_control_char(c: char) -> bool {
    (c as u32) < 0x20 || (0x7F <= c as u32 && c as u32 <= 0x9F)
}

/// Runtime test for [`is_space_char`].
pub fn is_space(c: char) -> (r: bool)
    ensures
        r == is_space_char(c),
{
    let n = c as u32;
    n == 0x20 || n == 0x09 || n == 0x0A || n == 0x0D || n == 0x0B || n == 0x0C || n == 0x85
        || n == 0xA0 || n == 0x1680 || (0x2000 <= n && n <= 0x200A) || n == 0x2028 || n == 0x2029
        || n == 0x202F || n == 0x205F || n == 0x3000
}

/// Runtime test for [`is_control_char`].
pub fn is_control(c: char) -> (r: bool)
    ensures
        r == is_control_char(c),
{
    let n = c as u32;
    n < 0x20 || (0x7F <= n && n <= 0x9F)
}

/// The characters of `s`, in order, as a vector.
pub fn str_chars(s: &str) -> (r: Vec<char>)
    ensures
        r@ == s@,
{
    let mut r: Vec<char> = Vec::new();
    for c in it: s.chars()
        invariant
            r@ == it.seq().take(it.index() as int),
    {
        r.push(c);
    }
    proof {
        assert(r@ =~= s@);
    }
    r
}

/// Relies on `String::push`: appends the given character to the end of the
/// string.
#[verifier::external_body]
pub(crate) fn push_char(s: &mut String, c: char)
    ensures
        final(s)@ == old(s)@ + seq![c],
{
    s.push(c);
}

/// A string holding exactly the characters of `v`, in order.
pub fn chars_to_string(v: &Vec<char>) -> (r: String)
    ensures
        r@ == v@,
{
    let mut r = String::new();
    let mut i: usize = 0;
    while i < v.len()
        invariant
            i <= v.len(),
            r@ == v@.take(i as int),
        decreases v.len() - i,
    {
        push_char(&mut r, v[i]);
        proof {
            assert(v@.take(i as int) + seq![v@[i as int]] =~= v@.take(i + 1));
        }
        i = i + 1;
    }
    proof {
        assert(v@.take(v@.len() as int) =~= v@);
    }
    r
}

/// `s` without its leading whitespace.
pub open spec fn trim_start_spec(s: Seq<char>) -> Seq<char>
    decreases s.len(),
{
    if s.len() > 0 && is_space_char(s[0]) {
        trim_start_spec(s.drop_first())
    } else {
        s
    }
}

/// `s` without its trailing whitespace.
pub open spec fn trim_end_spec(s: Seq<char>) -> Seq<char>
    decreases s.len(),
{
    if s.len() > 0 && is_space_char(s.last()) {
        trim_end_spec(s.drop_last())
    } else {
        s
    }
}

/// `s` without leading and trailing whitespace, as `str::trim` leaves it.
pub open spec fn trim_spec(s: Seq<char>) -> Seq<char> {
    trim_end_spec(trim_start_spec(s))
}

/// A trimmed sequence neither starts nor ends with whitespace.
pub proof fn lemma_trim_no_edge_space(s: Seq<char>)
    ensures
        trim_spec(s).len() > 0 ==> !is_space_char(trim_spec(s)[0]),
        trim_spec(s).len() > 0 ==> !is_space_char(trim_spec(s).last()),
{
    lemma_trim_start_no_lead(s);
    lemma_trim_end_no_trail(trim_start_spec(s));
    lemma_trim_end_keeps_head(trim_start_spec(s));
}

proof fn lemma_trim_start_no_lead(s: Seq<char>)
    ensures
        trim_start_spec(s).len() > 0 ==> !is_space_char(trim_start_spec(s)[0]),
    decreases s.len(),
{
    if s.len() > 0 && is_space_char(s[0]) {
        lemma_trim_start_no_lead(s.drop_first());
    }
}

proof fn lemma_trim_end_no_trail(s: Seq<char>)
    ensures
        trim_end_spec(s).len() > 0 ==> !is_space_char(trim_end_spec(s).last()),
    decreases s.len(),
{
    if s.len() > 0 && is_space_char(s.last()) {
        lemma_trim_end_no_trail(s.drop_last());
    }
}

proof fn lemma_trim_end_keeps_head(s: Seq<char>)
    ensures
        trim_end_spec(s).len() > 0 ==> s.len() > 0 && trim_end_spec(s)[0] == s[0],
    decreases s.len(),
{
    if s.len() > 0 && is_space_char(s.last()) {
        lemma_trim_end_keeps_head(s.drop_last());
    }
}

/// Every character of the trimmed sequence occurs in the original.
pub proof fn lemma_trim_members(s: Seq<char>, c: char)
    ensures
        trim_spec(s).contains(c) ==> s.contains(c),
{
    lemma_trim_start_members(s, c);
    lemma_trim_end_members(trim_start_spec(s), c);
}

proof fn lemma_trim_start_members(s: Seq<char>, c: char)
    ensures
        trim_start_spec(s).contains(c) ==> s.contains(c),
    decreases s.len(),
{
    if s.len() > 0 && is_space_char(s[0]) {
        lemma_trim_start_members(s.drop_first(), c);
        if trim_start_spec(s).contains(c) {
            let i = choose|i: int| 0 <= i < s.drop_first().len() && s.drop_first()[i] == c;
            assert(s[i + 1] == c);
        }
    }
}

proof fn lemma_trim_end_members(s: Seq<char>, c: char)
    ensures
        trim_end_spec(s).contains(c) ==> s.contains(c),
    decreases s.len(),
{
    if s.len() > 0 && is_space_char(s.last()) {
        lemma_trim_end_members(s.drop_last(), c);
        if trim_end_spec(s).contains(c) {
            let i = choose|i: int| 0 <= i < s.drop_last().len() && s.drop_last()[i] == c;
            assert(s[i] == c);
        }
    }
}

/// `v` without leading and trailing whitespace.
pub fn trim_chars(v: &Vec<char>) -> (r: Vec<char>)
    ensures
        r@ == trim_spec(v@),
{
    let mut i: usize = 0;
    proof {
        assert(v@.skip(0) =~= v@);
    }
    while i < v.len() && is_space(v[i])
        invariant
            i <= v.len(),
            trim_start_spec(v@) == trim_start_spec(v@.skip(i as int)),
        decreases v.len() - i,
    {
        proof {
            assert(v@.skip(i as int).drop_first() =~= v@.skip(i + 1));
        }
        i = i + 1;
    }
    proof {
        if i < v.len() {
            assert(trim_start_spec(v@.skip(i as int)) == v@.skip(i as int));
        } else {
            assert(v@.skip(i as int) =~= Seq::<char>::empty());
        }
        assert(trim_start_spec(v@) == v@.skip(i as int));
    }
    let mut j: usize = v.len();
    proof {
        assert(v@.skip(i as int).take(v@.len() - i as int) =~= v@.skip(i as int));
    }
    while j > i && is_space(v[j - 1])
        invariant
            i <= j <= v.len(),
            trim_start_spec(v@) == v@.skip(i as int),
            trim_end_spec(v@.skip(i as int)) == trim_end_spec(
                v@.skip(i as int).take(j as int - i as int),
            ),
        decreases j,
    {
        proof {
            let u = v@.skip(i as int).take(j as int - i as int);
            assert(u.last() == v@[j as int - 1]);
            assert(u.drop_last() =~= v@.skip(i as int).take(j as int - 1 - i as int));
        }
        j = j - 1;
    }
    proof {
        let u = v@.skip(i as int).take(j as int - i as int);
        if j > i {
            assert(u.last() == v@[j as int - 1]);
            assert(trim_end_spec(u) == u);
        } else {
            assert(u =~= Seq::<char>::empty());
        }
    }
    let mut r: Vec<char> = Vec::new();
    let mut k: usize = i;
    while k < j
        invariant
            i <= k <= j <= v.len(),
            r@ == v@.subrange(i as int, k as int),
        decreases j - k,
    {
        r.push(v[k]);
        proof {
            assert(v@.subrange(i as int, k as int).push(v@[k as int]) =~= v@.subrange(
                i as int,
                k + 1,
            ));
        }
        k = k + 1;
    }
    proof {
        assert(r@ =~= v@.skip(i as int).take(j as int - i as int));
    }
    r
}

/// Whether the characters of `a` and `b` agree.
pub fn eq_chars(a: &Vec<char>, b: &Vec<char>) -> (r: bool)
    ensures
        r == (a@ == b@),
{
    if a.len() != b.len() {
        return false;
    }
    let mut i: usize = 0;
    while i < a.len()
        invariant
            i <= a.len(),
            a.len() == b.len(),
            forall|k: int| 0 <= k < i ==> a@[k] == b@[k],
        decreases a.len() - i,
    {
        if a[i] != b[i] {
            return false;
        }
        i = i + 1;
    }
    proof {
        assert(a@ =~= b@);
    }
    true
}

/// Whether `sub` occurs in `s` starting at index `i`.
pub open spec fn has_sub_at(s: Seq<char>, sub: Seq<char>, i: int) -> bool {
    0 <= i && i + sub.len() <= s.len() && s.subrange(i, i + sub.len()) == sub
}

/// Whether `sub` occurs anywhere in `s`.
pub open spec fn contains_sub(s: Seq<char>, sub: Seq<char>) -> bool {
    exists|i: int| has_sub_at(s, sub, i)
}

/// Whether `sub` occurs in `s` at exactly the position `at`.
fn matches_at(s: &Vec<char>, sub: &Vec<char>, at: usize) -> (r: bool)
    requires
        at + sub@.len() <= s@.len(),
    ensures
        r == has_sub_at(s@, sub@, at as int),
{
    let mut k: usize = 0;
    while k < sub.len()
        invariant
            k <= sub.len(),
            at + sub@.len() <= s@.len(),
            forall|m: int| 0 <= m < k ==> s@[at + m] == sub@[m],
        decreases sub.len() - k,
    {
        proof {
            assert(at + k < s.len());
        }
        if s[at + k] != sub[k] {
            proof {
                assert(s@.subrange(at as int, at + sub@.len())[k as int] == s@[at + k]);
            }
            return false;
        }
        k = k + 1;
    }
    proof {
        assert(s@.subrange(at as int, at + sub@.len()) =~= sub@);
    }
    true
}

/// Whether `sub` occurs anywhere in `s`.
pub fn contains_chars(s: &Vec<char>, sub: &Vec<char>) -> (r: bool)
    ensures
        r == contains_sub(s@, sub@),
{
    if sub.len() > s.len() {
        return false;
    }
    if sub.len() == 0 {
        proof {
            assert(s@.subrange(0, 0) =~= sub@);
            assert(has_sub_at(s@, sub@, 0));
        }
        return true;
    }
    let limit = s.len() - sub.len();
    let mut i: usize = 0;
    while i <= limit
        invariant
            limit == s.len() - sub.len(),
            sub@.len() >= 1,
            sub.len() <= s.len(),
            i <= limit + 1,
            forall|k: int| 0 <= k < i ==> !has_sub_at(s@, sub@, k),
        decreases limit + 1 - i,
    {
        if matches_at(s, sub, i) {
            return true;
        }
        i = i + 1;
    }
    proof {
        if contains_sub(s@, sub@) {
            let w = choose|w: int| has_sub_at(s@, sub@, w);
            assert(!has_sub_at(s@, sub@, w));
        }
    }
    false
}

/// Whether `p` is a prefix of `s`.
pub fn starts_with_chars(s: &Vec<char>, p: &Vec<char>) -> (r: bool)
    ensures
        r == p@.is_prefix_of(s@),
{
    if p.len() > s.len() {
        return false;
    }
    let r = matches_at(s, p, 0);
    proof {
        assert(s@.subrange(0, p@.len() as int) =~= s@.take(p@.len() as int));
    }
    r
}

/// Whether every character is a decimal digit.
pub open spec fn all_decimal_digits(d: Seq<char>) -> bool {
    forall|i: int| 0 <= i < d.len() ==> '0' <= #[trigger] d[i] <= '9'
}

/// `s` without leading characters drawn from `set`.
pub open spec fn trim_start_any(s: Seq<char>, set: Seq<char>) -> Seq<char>
    decreases s.len(),
{
    if s.len() > 0 && set.contains(s[0]) {
        trim_start_any(s.drop_first(), set)
    } else {
        s
    }
}

/// `s` without trailing characters drawn from `set`.
pub open spec fn trim_end_any(s: Seq<char>, set: Seq<char>) -> Seq<char>
    decreases s.len(),
{
    if s.len() > 0 && set.contains(s.last()) {
        trim_end_any(s.drop_last(), set)
    } else {
        s
    }
}

/// `s` without characters drawn from `set` at either end.
pub open spec fn trim_any(s: Seq<char>, set: Seq<char>) -> Seq<char> {
    trim_end_any(trim_start_any(s, set), set)
}

/// Whether `c` occurs in `set`.
pub fn set_contains(set: &Vec<char>, c: char) -> (r: bool)
    ensures
        r == set@.contains(c),
{
    let mut i: usize = 0;
    while i < set.len()
        invariant
            i <= set@.len(),
            forall|k: int| 0 <= k < i ==> set@[k] != c,
        decreases set@.len() - i,
    {
        if set[i] == c {
            return true;
        }
        i = i + 1;
    }
    false
}

/// Removes leading characters drawn from `set`.
pub fn trim_start_any_chars(v: &Vec<char>, set: &Vec<char>) -> (r: Vec<char>)
    ensures
        r@ == trim_start_any(v@, set@),
{
    let mut i: usize = 0;
    proof {
        assert(v@.skip(0) =~= v@);
    }
    while i < v.len() && set_contains(set, v[i])
        invariant
            i <= v.len(),
            trim_start_any(v@, set@) == trim_start_any(v@.skip(i as int), set@),
        decreases v.len() - i,
    {
        proof {
            assert(v@.skip(i as int).drop_first() =~= v@.skip(i + 1));
        }
        i = i + 1;
    }
    proof {
        if i < v.len() {
            assert(trim_start_any(v@.skip(i as int), set@) == v@.skip(i as int));
        } else {
            assert(v@.skip(i as int) =~= Seq::<char>::empty());
        }
    }
    let mut r: Vec<char> = Vec::new();
    let mut k: usize = i;
    while k < v.len()
        invariant
            i <= k <= v@.len(),
            r@ == v@.subrange(i as int, k as int),
        decreases v.len() - k,
    {
        r.push(v[k]);
        proof {
            assert(v@.subrange(i as int, k as int).push(v@[k as int]) =~= v@.subrange(
                i as int,
                k + 1,
            ));
        }
        k = k + 1;
    }
    proof {
        assert(r@ =~= v@.skip(i as int));
    }
    r
}

/// Removes trailing characters drawn from `set`.
pub fn trim_end_any_chars(v: &Vec<char>, set: &Vec<char>) -> (r: Vec<char>)
    ensures
        r@ == trim_end_any(v@, set@),
{
    let mut j: usize = v.len();
    proof {
        assert(v@.take(v@.len() as int) =~= v@);
    }
    while j > 0 && set_contains(set, v[j - 1])
        invariant
            j <= v@.len(),
            trim_end_any(v@, set@) == trim_end_any(v@.take(j as int), set@),
        decreases j,
    {
        proof {
            let u = v@.take(j as int);
            assert(u.last() == v@[j as int - 1]);
            assert(u.drop_last() =~= v@.take(j as int - 1));
        }
        j = j - 1;
    }
    proof {
        let u = v@.take(j as int);
        if j > 0 {
            assert(u.last() == v@[j as int - 1]);
            assert(trim_end_any(u, set@) == u);
        } else {
            assert(u =~= Seq::<char>::empty());
        }
    }
    let mut r: Vec<char> = Vec::new();
    let mut k: usize = 0;
    while k < j
        invariant
            k <= j <= v@.len(),
            r@ == v@.take(j as int).take(k as int),
        decreases j - k,
    {
        proof {
            assert(v@.take(j as int).take(k as int).push(v@[k as int]) =~= v@.take(j as int).take(
                k as int + 1,
            ));
            assert(v@.take(j as int)[k as int] == v@[k as int]);
        }
        r.push(v[k]);
        k = k + 1;
    }
    proof {
        assert(v@.take(j as int).take(j as int) =~= v@.take(j as int));
    }
    r
}

/// Removes characters drawn from `set` at both ends.
pub fn trim_any_chars(v: &Vec<char>, set: &Vec<char>) -> (r: Vec<char>)
    ensures
        r@ == trim_any(v@, set@),
{
    let a = trim_start_any_chars(v, set);
    trim_end_any_chars(&a, set)
}

/// `s` without trailing slash characters, as endpoints are normalized.
pub open spec fn trim_slashes_spec(s: Seq<char>) -> Seq<char>
    decreases s.len(),
{
    if s.len() > 0 && s.last() == '/' {
        trim_slashes_spec(s.drop_last())
    } else {
        s
    }
}

/// Removes trailing slashes from an endpoint.
pub fn trim_trailing_slashes(s: &str) -> (r: Vec<char>)
    ensures
        r@ == trim_slashes_spec(s@),
{
    let v = str_chars(s);
    let mut j: usize = v.len();
    proof {
        assert(v@.take(v@.len() as int) =~= v@);
    }
    while j > 0 && v[j - 1] == '/'
        invariant
            j <= v@.len(),
            trim_slashes_spec(v@) == trim_slashes_spec(v@.take(j as int)),
        decreases j,
    {
        proof {
            let u = v@.take(j as int);
            assert(u.last() == v@[j as int - 1]);
            assert(u.drop_last() =~= v@.take(j as int - 1));
        }
        j = j - 1;
    }
    proof {
        let u = v@.take(j as int);
        if j > 0 {
            assert(u.last() == v@[j as int - 1]);
            assert(trim_slashes_spec(u) == u);
        } else {
            assert(u =~= Seq::<char>::empty());
        }
    }
    let mut r: Vec<char> = Vec::new();
    let mut k: usize = 0;
    while k < j
        invariant
            k <= j <= v@.len(),
            r@ == v@.take(j as int).take(k as int),
        decreases j - k,
    {
        proof {
            assert(v@.take(j as int).take(k as int).push(v@[k as int]) =~= v@.take(j as int).take(
                k as int + 1,
            ));
            assert(v@.take(j as int)[k as int] == v@[k as int]);
        }
        r.push(v[k]);
        k = k + 1;
    }
    proof {
        assert(v@.take(j as int).take(j as int) =~= v@.take(j as int));
    }
    r
}

/// Whether `p` is a suffix of `s`.
pub fn ends_with_chars(s: &Vec<char>, p: &Vec<char>) -> (r: bool)
    ensures
        r == p@.is_suffix_of(s@),
{
    if p.len() > s.len() {
        return false;
    }
    let r = matches_at(s, p, s.len() - p.len());
    proof {
        assert(s@.subrange(s@.len() - p@.len(), s@.len() as int) =~= s@.skip(
            s@.len() - p@.len(),
        ));
    }
    r
}

} // verus!
