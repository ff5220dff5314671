//! Text as sequences of characters: searching, trimming, cutting, joining and
//! the printing of numbers.
use vstd::prelude::*;

verus! {

/// The characters that carry the Unicode property `White_Space`.
pub open spec fn is_space(c: char) -> bool {
    ||| '\u{9}' <= c <= '\u{d}'
    ||| c == '\u{20}'
    ||| c == '\u{85}'
    ||| c == '\u{a0}'
    ||| c == '\u{1680}'
    ||| '\u{2000}' <= c <= '\u{200a}'
    ||| c == '\u{2028}'
    ||| c == '\u{2029}'
    ||| c == '\u{202f}'
    ||| c == '\u{205f}'
    ||| c == '\u{3000}'
}

/// `char::is_whitespace` of std: true of the characters with the property
/// `White_Space` and of no others.
pub assume_specification[ char::is_whitespace ](c: char) -> (r: bool)
    ensures
        r == is_space(c),
;

/// What `str::to_lowercase` makes of a text.
pub uninterp spec fn lowercased(s: Seq<char>) -> Seq<char>;

/// The lower-case letter of an ASCII capital; any other character itself.
pub open spec fn ascii_lower(c: char) -> char {
    if 'A' <= c <= 'Z' {
        ((c as u8) + 32) as char
    } else {
        c
    }
}

/// A text of ASCII characters only.
pub open spec fn is_ascii_text(s: Seq<char>) -> bool {
    forall|i: int| 0 <= i < s.len() ==> (s[i] as u32) < 128
}

/// A text with its ASCII capitals in lower case.
pub open spec fn ascii_lowercased(s: Seq<char>) -> Seq<char> {
    s.map_values(|c: char| ascii_lower(c))
}

/// `str::to_lowercase` of std: the Unicode lower-case form of the text, which for
/// a text of ASCII characters only changes `A` to `Z` into `a` to `z`.
pub assume_specification[ str::to_lowercase ](s: &str) -> (r: String)
    ensures
        r@ == lowercased(s@),
        is_ascii_text(s@) ==> r@ == ascii_lowercased(s@),
;

/// `==` of std on two string slices: true exactly when they hold the same
/// characters.
pub assume_specification[ <str as PartialEq>::eq ](a: &str, b: &str) -> (r: bool)
    ensures
        r == (a@ == b@),
;

/// `String::from_iter` of std on characters: the string of these characters in
/// this order.
#[verifier::external_body]
pub(crate) fn string_of(chars: &[char]) -> (r: String)
    ensures
        r@ == chars@,
{
    String::from_iter(chars.iter())
}

/// The characters of a text.
pub fn chars_of(s: &str) -> (r: Vec<char>)
    ensures
        r@ == s@,
{
    let mut v: Vec<char> = Vec::new();
    for c in it: s.chars()
        invariant
            it.seq() == s@,
            v@ == it.seq().take(it.index() as int),
    {
        v.push(c);
    }
    v
}

/// Whether two texts are the same.
pub fn same_text(a: &str, b: &str) -> (r: bool)
    ensures
        r == (a@ == b@),
{
    *a == *b
}

// ---------- searching ----------

/// `p` stands in `s` at position `i`.
pub open spec fn occurs_at(s: Seq<char>, p: Seq<char>, i: int) -> bool {
    0 <= i <= s.len() - p.len() && s.subrange(i, i + p.len()) == p
}

/// `p` stands somewhere in `s`.
pub open spec fn contains(s: Seq<char>, p: Seq<char>) -> bool {
    exists|i: int| occurs_at(s, p, i)
}

/// The first position from `i` on at which `p` stands in `s`.
pub open spec fn find_from(s: Seq<char>, p: Seq<char>, i: int) -> Option<int>
    decreases s.len() + 1 - i,
{
    if i < 0 || i + p.len() > s.len() {
        None
    } else if occurs_at(s, p, i) {
        Some(i)
    } else {
        find_from(s, p, i + 1)
    }
}

/// The first position at which `p` stands in `s`.
pub open spec fn find(s: Seq<char>, p: Seq<char>) -> Option<int> {
    find_from(s, p, 0)
}

/// The search finds the first occurrence, and finds none only where there is none.
pub proof fn find_from_is_first(s: Seq<char>, p: Seq<char>, i: int)
    requires
        0 <= i,
    ensures
        match find_from(s, p, i) {
            Some(k) => i <= k && occurs_at(s, p, k) && (forall|j: int|
                i <= j < k ==> !occurs_at(s, p, j)),
            None => forall|j: int| i <= j ==> !occurs_at(s, p, j),
        },
    decreases s.len() + 1 - i,
{
    if i + p.len() <= s.len() && !occurs_at(s, p, i) {
        find_from_is_first(s, p, i + 1);
    }
}

/// A text holds another exactly when the search for it succeeds.
pub proof fn contains_is_found(s: Seq<char>, p: Seq<char>)
    ensures
        contains(s, p) == (find(s, p) is Some),
{
    find_from_is_first(s, p, 0);
    if find(s, p) is Some {
        assert(occurs_at(s, p, find(s, p)->0));
    }
}

/// Whether the pattern stands at the given position.
fn matches_at(s: &[char], p: &[char], i: usize) -> (r: bool)
    requires
        i <= s@.len(),
    ensures
        r == occurs_at(s@, p@, i as int),
{
    if p.len() > s.len() - i {
        return false;
    }
    let mut k: usize = 0;
    while k < p.len()
        invariant
            k <= p@.len(),
            i + p@.len() <= s@.len(),
            s@.len() <= usize::MAX,
            forall|j: int| 0 <= j < k ==> s@[i + j] == p@[j],
        decreases p@.len() - k,
    {
        if s[i + k] != p[k] {
            assert(s@.subrange(i as int, i + p@.len())[k as int] != p@[k as int]);
            return false;
        }
        k += 1;
    }
    assert(s@.subrange(i as int, i + p@.len()) =~= p@);
    true
}

/// The first position of `p` in `s` at or after `from`.
pub fn find_chars_from(s: &[char], p: &[char], from: usize) -> (r: Option<usize>)
    requires
        from <= s@.len(),
    ensures
        match r {
            Some(i) => find_from(s@, p@, from as int) == Some(i as int),
            None => find_from(s@, p@, from as int) is None,
        },
        r matches Some(i) ==> i + p@.len() <= s@.len(),
{
    let mut i: usize = from;
    while p.len() <= s.len() - i
        invariant
            from <= i <= s@.len(),
            find_from(s@, p@, from as int) == find_from(s@, p@, i as int),
        decreases s@.len() - i,
    {
        if matches_at(s, p, i) {
            return Some(i);
        }
        if i == s.len() {
            assert(s@.subrange(i as int, i + p@.len()) =~= p@);
            return None;
        }
        i += 1;
    }
    None
}

/// The first position of `p` in `s`.
pub fn find_chars(s: &[char], p: &[char]) -> (r: Option<usize>)
    ensures
        match r {
            Some(i) => find(s@, p@) == Some(i as int),
            None => find(s@, p@) is None,
        },
        r matches Some(i) ==> i + p@.len() <= s@.len(),
{
    find_chars_from(s, p, 0)
}

/// Whether `p` stands somewhere in `s`.
pub fn text_contains(s: &str, p: &str) -> (r: bool)
    ensures
        r == contains(s@, p@),
{
    let sc = chars_of(s);
    let pc = chars_of(p);
    proof {
        contains_is_found(s@, p@);
    }
    find_chars(sc.as_slice(), pc.as_slice()).is_some()
}

/// Whether `s` begins with `p`.
pub open spec fn starts_with(s: Seq<char>, p: Seq<char>) -> bool {
    occurs_at(s, p, 0)
}

/// Whether `s` ends with `p`.
pub open spec fn ends_with(s: Seq<char>, p: Seq<char>) -> bool {
    occurs_at(s, p, s.len() - p.len())
}

/// Whether `s` begins with `p`.
pub fn chars_start_with(s: &[char], p: &[char]) -> (r: bool)
    ensures
        r == starts_with(s@, p@),
{
    matches_at(s, p, 0)
}

/// Whether `s` begins with `p`.
pub fn text_starts_with(s: &str, p: &str) -> (r: bool)
    ensures
        r == starts_with(s@, p@),
{
    let sc = chars_of(s);
    let pc = chars_of(p);
    matches_at(sc.as_slice(), pc.as_slice(), 0)
}

/// Whether `s` ends with `p`.
pub fn chars_end_with(s: &[char], p: &[char]) -> (r: bool)
    ensures
        r == ends_with(s@, p@),
{
    if p.len() > s.len() {
        return false;
    }
    matches_at(s, p, s.len() - p.len())
}

/// The first position of a character.
pub open spec fn first_of(s: Seq<char>, c: char) -> Option<int> {
    find(s, seq![c])
}

/// The last position of a character.
pub open spec fn last_of(s: Seq<char>, c: char) -> Option<int>
    decreases s.len(),
{
    if s.len() == 0 {
        None
    } else if s.last() == c {
        Some(s.len() - 1)
    } else {
        last_of(s.drop_last(), c)
    }
}

/// The search from the end finds the last occurrence.
pub proof fn last_of_is_last(s: Seq<char>, c: char)
    ensures
        match last_of(s, c) {
            Some(k) => 0 <= k < s.len() && s[k] == c && (forall|j: int|
                k < j < s.len() ==> s[j] != c),
            None => forall|j: int| 0 <= j < s.len() ==> s[j] != c,
        },
    decreases s.len(),
{
    if s.len() > 0 && s.last() != c {
        last_of_is_last(s.drop_last(), c);
        assert forall|j: int| 0 <= j < s.len() - 1 implies s[j] == s.drop_last()[j] by {}
    }
}

/// The first position of a character.
pub fn find_char(s: &[char], c: char) -> (r: Option<usize>)
    ensures
        match r {
            Some(i) => first_of(s@, c) == Some(i as int) && i < s@.len() && s@[i as int] == c,
            None => first_of(s@, c) is None,
        },
{
    let p: [char; 1] = [c];
    let r = find_chars(s, &p);
    proof {
        assert(p@ =~= seq![c]);
        find_from_is_first(s@, seq![c], 0);
        if let Some(i) = r {
            assert(s@.subrange(i as int, i + 1)[0] == seq![c][0]);
        }
    }
    r
}

/// The last position of a character.
pub fn rfind_char(s: &[char], c: char) -> (r: Option<usize>)
    ensures
        match r {
            Some(i) => last_of(s@, c) == Some(i as int) && i < s@.len() && s@[i as int] == c,
            None => last_of(s@, c) is None,
        },
{
    let mut n: usize = s.len();
    assert(s@.take(n as int) =~= s@);
    while n > 0
        invariant
            n <= s@.len(),
            last_of(s@, c) == last_of(s@.take(n as int), c),
        decreases n,
    {
        if s[n - 1] == c {
            return Some(n - 1);
        }
        assert(s@.take(n as int).drop_last() =~= s@.take(n - 1));
        n -= 1;
    }
    None
}

// ---------- trimming and cutting ----------

/// Where the text begins once the space at its start is passed over.
pub open spec fn content_start(s: Seq<char>) -> int
    decreases s.len(),
{
    if s.len() == 0 || !is_space(s[0]) {
        0
    } else {
        1 + content_start(s.skip(1))
    }
}

/// Where the text ends once the space at its end is left off.
pub open spec fn content_end(s: Seq<char>) -> int
    decreases s.len(),
{
    if s.len() == 0 || !is_space(s.last()) {
        s.len() as int
    } else {
        content_end(s.drop_last())
    }
}

/// The text without the space at its start.
pub open spec fn trim_start(s: Seq<char>) -> Seq<char> {
    s.skip(content_start(s))
}

/// The text without the space at its end.
pub open spec fn trim_end(s: Seq<char>) -> Seq<char> {
    s.take(content_end(s))
}

/// The text without the space at either end.
pub open spec fn trim(s: Seq<char>) -> Seq<char> {
    trim_end(trim_start(s))
}

/// The start of the content lies within the text.
pub proof fn content_start_bounds(s: Seq<char>)
    ensures
        0 <= content_start(s) <= s.len(),
        forall|i: int| 0 <= i < content_start(s) ==> is_space(s[i]),
        content_start(s) < s.len() ==> !is_space(s[content_start(s)]),
    decreases s.len(),
{
    if s.len() > 0 && is_space(s[0]) {
        content_start_bounds(s.skip(1));
        let k = content_start(s.skip(1));
        assert forall|i: int| 0 <= i < 1 + k implies is_space(s[i]) by {
            if i > 0 {
                assert(s[i] == s.skip(1)[i - 1]);
            }
        }
        if k < s.len() - 1 {
            assert(s[1 + k] == s.skip(1)[k]);
        }
    }
}

/// The end of the content lies within the text.
pub proof fn content_end_bounds(s: Seq<char>)
    ensures
        0 <= content_end(s) <= s.len(),
        forall|i: int| content_end(s) <= i < s.len() ==> is_space(s[i]),
        content_end(s) > 0 ==> !is_space(s[content_end(s) - 1]),
    decreases s.len(),
{
    if s.len() > 0 && is_space(s.last()) {
        content_end_bounds(s.drop_last());
        let k = content_end(s.drop_last());
        assert forall|i: int| k <= i < s.len() implies is_space(s[i]) by {
            if i < s.len() - 1 {
                assert(s[i] == s.drop_last()[i]);
            }
        }
        if k > 0 {
            assert(s[k - 1] == s.drop_last()[k - 1]);
        }
    }
}

/// A trimmed text is not changed by trimming it again.
pub proof fn trimming_is_done_once(s: Seq<char>)
    ensures
        trim(trim(s)) == trim(s),
{
    let t = trim_start(s);
    let u = trim(s);
    content_start_bounds(s);
    content_end_bounds(t);
    if u.len() > 0 {
        assert(u[0] == t[0]);
        assert(t[0] == s[content_start(s)]);
        assert(u.last() == t[content_end(t) - 1]);
        assert(u.skip(0) =~= u);
        assert(u.take(u.len() as int) =~= u);
    } else {
        assert(u.skip(0) =~= u);
        assert(u.take(0) =~= u);
    }
}

/// The position at which the content of a text begins.
fn content_start_of(s: &[char]) -> (r: usize)
    ensures
        r == content_start(s@),
        r <= s@.len(),
{
    let mut i: usize = 0;
    assert(s@.skip(0) =~= s@);
    while i < s.len() && s[i].is_whitespace()
        invariant
            i <= s@.len(),
            content_start(s@) == i + content_start(s@.skip(i as int)),
        decreases s@.len() - i,
    {
        assert(s@.skip(i as int)[0] == s@[i as int]);
        assert(s@.skip(i as int).skip(1) =~= s@.skip(i + 1));
        i += 1;
    }
    assert(i < s@.len() ==> s@.skip(i as int)[0] == s@[i as int]);
    i
}

/// The position at which the content of a text ends.
fn content_end_of(s: &[char]) -> (r: usize)
    ensures
        r == content_end(s@),
        r <= s@.len(),
{
    let mut n: usize = s.len();
    assert(s@.take(n as int) =~= s@);
    while n > 0 && s[n - 1].is_whitespace()
        invariant
            n <= s@.len(),
            content_end(s@) == content_end(s@.take(n as int)),
        decreases n,
    {
        assert(s@.take(n as int).last() == s@[n - 1]);
        assert(s@.take(n as int).drop_last() =~= s@.take(n - 1));
        n -= 1;
    }
    assert(n > 0 ==> s@.take(n as int).last() == s@[n - 1]);
    n
}

/// A copy of the characters from `from` up to `to`.
pub fn cut(s: &[char], from: usize, to: usize) -> (r: Vec<char>)
    requires
        from <= to <= s@.len(),
    ensures
        r@ == s@.subrange(from as int, to as int),
{
    let mut v: Vec<char> = Vec::new();
    let mut i: usize = from;
    while i < to
        invariant
            from <= i <= to <= s@.len(),
            v@ == s@.subrange(from as int, i as int),
        decreases to - i,
    {
        v.push(s[i]);
        i += 1;
        assert(v@ =~= s@.subrange(from as int, i as int));
    }
    v
}

/// The text without the space at its start.
pub fn trim_start_chars(s: &[char]) -> (r: Vec<char>)
    ensures
        r@ == trim_start(s@),
{
    let i: usize = content_start_of(s);
    cut(s, i, s.len())
}

/// The text without the space at its end.
pub fn trim_end_chars(s: &[char]) -> (r: Vec<char>)
    ensures
        r@ == trim_end(s@),
{
    let n: usize = content_end_of(s);
    cut(s, 0, n)
}

/// The text without the space at either end.
pub fn trim_chars(s: &[char]) -> (r: Vec<char>)
    ensures
        r@ == trim(s@),
{
    let v = trim_start_chars(s);
    trim_end_chars(v.as_slice())
}

/// The text without the space at either end.
pub fn trim_text(s: &str) -> (r: String)
    ensures
        r@ == trim(s@),
{
    let c = chars_of(s);
    let t = trim_chars(c.as_slice());
    string_of(t.as_slice())
}

/// The text without the space at its end.
pub fn trim_end_text(s: &str) -> (r: String)
    ensures
        r@ == trim_end(s@),
{
    let c = chars_of(s);
    let t = trim_end_chars(c.as_slice());
    string_of(t.as_slice())
}

/// The first `n` characters of a text, or all of it where it is shorter.
pub open spec fn first_chars(s: Seq<char>, n: int) -> Seq<char> {
    if s.len() <= n {
        s
    } else {
        s.take(n)
    }
}

/// The last `n` characters of a text, or all of it where it is shorter.
pub open spec fn last_chars(s: Seq<char>, n: int) -> Seq<char> {
    if s.len() <= n {
        s
    } else {
        s.skip(s.len() - n)
    }
}

/// The first `n` characters of a text, or all of it where it is shorter.
pub fn take_text(s: &str, n: usize) -> (r: String)
    ensures
        r@ == first_chars(s@, n as int),
{
    let c = chars_of(s);
    if c.len() <= n {
        string_of(c.as_slice())
    } else {
        let v = cut(c.as_slice(), 0, n);
        string_of(v.as_slice())
    }
}

/// The last `n` characters of a text, or all of it where it is shorter.
pub fn take_last_text(s: &str, n: usize) -> (r: String)
    ensures
        r@ == last_chars(s@, n as int),
{
    let c = chars_of(s);
    if c.len() <= n {
        string_of(c.as_slice())
    } else {
        let v = cut(c.as_slice(), c.len() - n, c.len());
        string_of(v.as_slice())
    }
}

// ---------- joining ----------

/// The parts in order, with the separator between each two.
pub open spec fn join(parts: Seq<Seq<char>>, sep: Seq<char>) -> Seq<char>
    decreases parts.len(),
{
    if parts.len() == 0 {
        Seq::empty()
    } else if parts.len() == 1 {
        parts[0]
    } else {
        join(parts.drop_last(), sep) + sep + parts.last()
    }
}

/// Each part stands in the whole.
pub proof fn parts_stand_in_a_join(parts: Seq<Seq<char>>, sep: Seq<char>, i: int)
    requires
        0 <= i < parts.len(),
    ensures
        contains(join(parts, sep), parts[i]),
    decreases parts.len(),
{
    let all = join(parts, sep);
    if parts.len() == 1 {
        assert(all.subrange(0, parts[0].len() as int) =~= parts[0]);
        assert(occurs_at(all, parts[i], 0));
    } else {
        let head = join(parts.drop_last(), sep);
        if i < parts.len() - 1 {
            assert(parts.drop_last()[i] == parts[i]);
            parts_stand_in_a_join(parts.drop_last(), sep, i);
            let k = choose|k: int| occurs_at(head, parts[i], k);
            assert(all.subrange(k, k + parts[i].len()) =~= head.subrange(
                k,
                k + parts[i].len(),
            ));
            assert(occurs_at(all, parts[i], k));
        } else {
            let k: int = head.len() + sep.len() as int;
            assert(all.subrange(k, k + parts[i].len()) =~= parts[i]);
            assert(occurs_at(all, parts[i], k));
        }
    }
}

/// What stands in a text stands in every longer one that has it in its midst.
pub proof fn a_part_stands_in_a_longer_text(
    before: Seq<char>,
    s: Seq<char>,
    after: Seq<char>,
    p: Seq<char>,
)
    requires
        contains(s, p),
    ensures
        contains(before + (s + after), p),
        contains(before + s, p),
{
    let k = choose|k: int| occurs_at(s, p, k);
    let longer = before + (s + after);
    assert(longer.subrange(before.len() + k, before.len() + k + p.len()) =~= s.subrange(
        k,
        k + p.len(),
    ));
    assert(occurs_at(longer, p, before.len() + k));
    assert((before + s).subrange(before.len() + k, before.len() + k + p.len()) =~= s.subrange(
        k,
        k + p.len(),
    ));
    assert(occurs_at(before + s, p, before.len() + k));
}

/// The parts in order, with the separator between each two.
pub fn join_text(parts: &[String], sep: &str) -> (r: String)
    ensures
        r@ == join(parts.deep_view(), sep@),
{
    if parts.len() == 0 {
        return String::new();
    }
    let mut out = parts[0].clone();
    let mut i: usize = 1;
    let ghost all = parts.deep_view();
    assert(all.take(1).len() == 1);
    while i < parts.len()
        invariant
            1 <= i <= parts@.len(),
            all == parts.deep_view(),
            all.len() == parts@.len(),
            out@ == join(all.take(i as int), sep@),
        decreases parts@.len() - i,
    {
        out.append(sep);
        out.append(parts[i].as_str());
        assert(all.take(i + 1).drop_last() =~= all.take(i as int));
        assert(all.take(i + 1).last() == all[i as int]);
        i += 1;
    }
    assert(all.take(i as int) =~= all);
    out
}

// ---------- brackets ----------

/// From the first opening to the last closing bracket, where they stand in that order.
pub open spec fn span(raw: Seq<char>, opener: char, closer: char) -> Option<(int, int)> {
    match (first_of(raw, opener), last_of(raw, closer)) {
        (Some(start), Some(end)) => if end > start {
            Some((start, end))
        } else {
            None
        },
        _ => None,
    }
}

/// The text from the one bracket to the other.
pub open spec fn cut_span(raw: Seq<char>, s: (int, int)) -> Seq<char> {
    raw.subrange(s.0, s.1 + 1)
}

/// What stands from the first opening to the last closing bracket begins with the one and
/// ends with the other, and outside it there are no more of them on that side.
pub proof fn spans_reach_from_first_to_last(raw: Seq<char>, opener: char, closer: char)
    ensures
        span(raw, opener, closer) matches Some((start, end)) ==> {
            &&& 0 <= start < end < raw.len()
            &&& raw[start] == opener
            &&& raw[end] == closer
            &&& forall|i: int| 0 <= i < start ==> raw[i] != opener
            &&& forall|i: int| end < i < raw.len() ==> raw[i] != closer
        },
{
    find_from_is_first(raw, seq![opener], 0);
    last_of_is_last(raw, closer);
    if let Some((start, end)) = span(raw, opener, closer) {
        assert(raw.subrange(start, start + 1)[0] == seq![opener][0]);
        assert forall|i: int| 0 <= i < start implies raw[i] != opener by {
            assert(!occurs_at(raw, seq![opener], i));
            assert(raw.subrange(i, i + 1) =~= seq![raw[i]]);
        }
    }
}

/// One pair of brackets stands within the other.
pub open spec fn encloses(outer: (int, int), inner: (int, int)) -> bool {
    outer.0 < inner.0 && inner.1 < outer.1
}

/// Where the square bracket is closed of which `depth` are open, read from `i` on. What
/// stands in double quotes is passed over; `quoted` says that the reading begins there.
pub open spec fn closing_from(s: Seq<char>, i: int, depth: int, quoted: bool) -> Option<int>
    decreases s.len() + 1 - i,
{
    if i < 0 || i >= s.len() {
        None
    } else if quoted {
        if s[i] == '\\' {
            closing_from(s, i + 2, depth, true)
        } else {
            closing_from(s, i + 1, depth, s[i] != '"')
        }
    } else if s[i] == ']' && depth <= 1 {
        Some(i)
    } else {
        let next = if s[i] == '[' {
            depth + 1
        } else if s[i] == ']' {
            depth - 1
        } else {
            depth
        };
        closing_from(s, i + 1, next, s[i] == '"')
    }
}

/// The first pair of square brackets: the first that is opened, and where that one is
/// closed.
pub open spec fn first_pair(s: Seq<char>) -> Option<(int, int)> {
    match first_of(s, '[') {
        Some(start) => match closing_from(s, start, 0, false) {
            Some(end) => Some((start, end)),
            None => None,
        },
        None => None,
    }
}

/// What stands round the curly brackets: the first pair of square brackets, where the
/// curly ones stand within it, else the curly ones themselves.
pub open spec fn outer_span(s: Seq<char>, curly: (int, int)) -> (int, int) {
    match first_pair(s) {
        Some(pair) => if encloses(pair, curly) {
            pair
        } else {
            curly
        },
        None => curly,
    }
}

/// A square bracket is closed by one that follows it.
proof fn closing_is_behind(s: Seq<char>, i: int, depth: int, quoted: bool)
    ensures
        closing_from(s, i, depth, quoted) matches Some(e) ==> i <= e < s.len() && s[e] == ']',
    decreases s.len() + 1 - i,
{
    if 0 <= i < s.len() {
        closing_is_behind(s, i + 1, depth, s[i] != '"');
        closing_is_behind(s, i + 2, depth, true);
        closing_is_behind(s, i + 1, depth, s[i] == '"');
        closing_is_behind(s, i + 1, depth + 1, s[i] == '"');
        closing_is_behind(s, i + 1, depth - 1, s[i] == '"');
    }
}

/// The first pair of square brackets.
fn find_first_pair(s: &[char]) -> (r: Option<(usize, usize)>)
    ensures
        match r {
            Some(p) => first_pair(s@) == Some((p.0 as int, p.1 as int)) && p.0 < p.1 < s@.len(),
            None => first_pair(s@) is None,
        },
{
    let start = match find_char(s, '[') {
        Some(start) => start,
        None => {
            return None;
        },
    };
    let mut i: usize = start;
    let mut depth: usize = 0;
    let mut quoted = false;
    while i < s.len()
        invariant
            start <= i,
            start < s@.len(),
            s@[start as int] == '[',
            first_of(s@, '[') == Some(start as int),
            i == start ==> depth == 0 && !quoted,
            depth <= i - start,
            closing_from(s@, start as int, 0, false) == closing_from(
                s@,
                i as int,
                depth as int,
                quoted,
            ),
        decreases s@.len() - i,
    {
        let c = s[i];
        if quoted {
            if c == '\\' {
                if i + 1 >= s.len() {
                    assert(closing_from(s@, i + 2, depth as int, true) is None);
                    return None;
                }
                i += 1;
            } else if c == '"' {
                quoted = false;
            }
        } else if c == ']' {
            if depth <= 1 {
                return Some((start, i));
            }
            depth -= 1;
        } else if c == '[' {
            depth += 1;
        } else if c == '"' {
            quoted = true;
        }
        i += 1;
    }
    None
}

/// What stands round the curly brackets.
pub fn find_outer_span(s: &[char], curly: (usize, usize)) -> (r: (usize, usize))
    requires
        curly.0 < curly.1 < s@.len(),
    ensures
        (r.0 as int, r.1 as int) == outer_span(s@, (curly.0 as int, curly.1 as int)),
        r.0 < r.1 < s@.len(),
{
    match find_first_pair(s) {
        Some(p) => if p.0 < curly.0 && curly.1 < p.1 {
            p
        } else {
            curly
        },
        None => curly,
    }
}

/// Square brackets that are closed before the curly ones begin are not taken for what
/// stands round them, nor are those that are never closed.
pub proof fn only_enclosing_brackets_are_outer(s: Seq<char>, curly: (int, int))
    requires
        curly.0 < curly.1,
    ensures
        outer_span(s, curly) != curly ==> {
            &&& first_of(s, '[') == Some(outer_span(s, curly).0)
            &&& outer_span(s, curly).0 < curly.0
            &&& curly.1 < outer_span(s, curly).1 < s.len()
            &&& s[outer_span(s, curly).1] == ']'
        },
        first_pair(s) matches Some(pair) ==> pair.1 < curly.0 ==> outer_span(s, curly) == curly,
        first_pair(s) is None ==> outer_span(s, curly) == curly,
{
    if let Some(start) = first_of(s, '[') {
        closing_is_behind(s, start, 0, false);
    }
}

/// From the first opening to the last closing bracket, where they stand in that order.
pub fn find_span(raw: &[char], opener: char, closer: char) -> (r: Option<(usize, usize)>)
    ensures
        match r {
            Some(s) => span(raw@, opener, closer) == Some((s.0 as int, s.1 as int)) && s.0 < s.1
                < raw@.len(),
            None => span(raw@, opener, closer) is None,
        },
{
    match find_char(raw, opener) {
        None => None,
        Some(start) => match rfind_char(raw, closer) {
            None => None,
            Some(end) => if end > start {
                Some((start, end))
            } else {
                None
            },
        },
    }
}

// ---------- numbers ----------

/// The character of a digit below ten.
pub open spec fn digit(d: nat) -> char {
    (('0' as u32) + d) as char
}

/// A number written in decimal.
pub open spec fn decimal(n: nat) -> Seq<char>
    decreases n,
{
    if n < 10 {
        seq![digit(n)]
    } else {
        decimal(n / 10).push(digit(n % 10))
    }
}

/// Different numbers are written differently.
pub proof fn decimals_differ(a: nat, b: nat)
    ensures
        decimal(a) == decimal(b) ==> a == b,
    decreases a,
{
    if decimal(a) == decimal(b) {
        decimal_is_long(a);
        decimal_is_long(b);
        if a < 10 {
            assert(decimal(a)[0] == decimal(b)[0]);
        } else {
            assert(decimal(a).drop_last() =~= decimal(a / 10));
            assert(decimal(b).drop_last() =~= decimal(b / 10));
            assert(decimal(a).last() == decimal(b).last());
            decimals_differ(a / 10, b / 10);
        }
    }
}

/// A number has one digit exactly when it is below ten.
proof fn decimal_is_long(n: nat)
    ensures
        decimal(n).len() >= 1,
        (decimal(n).len() == 1) == (n < 10),
    decreases n,
{
    if n >= 10 {
        decimal_is_long(n / 10);
    }
}

/// The character of a digit below ten.
fn digit_char(d: u8) -> (r: char)
    requires
        d < 10,
    ensures
        r == digit(d as nat),
{
    (48 + d) as char
}

/// The decimal digits of a number.
fn decimal_chars(n: u64) -> (r: Vec<char>)
    ensures
        r@ == decimal(n as nat),
    decreases n,
{
    let d: u8 = (n % 10) as u8;
    if n < 10 {
        let mut v: Vec<char> = Vec::new();
        v.push(digit_char(d));
        assert(v@ =~= seq![digit(n as nat)]);
        v
    } else {
        let mut v = decimal_chars(n / 10);
        v.push(digit_char(d));
        v
    }
}

/// A number written in decimal.
pub fn decimal_text(n: u64) -> (r: String)
    ensures
        r@ == decimal(n as nat),
{
    let v = decimal_chars(n);
    string_of(v.as_slice())
}

/// The character of a hexadecimal digit.
pub open spec fn hex_digit(d: nat) -> char {
    if d < 10 {
        digit(d)
    } else {
        (('a' as u32) + d - 10) as char
    }
}

/// The last `k` hexadecimal digits of a number, with leading zeros.
pub open spec fn hex_padded(n: nat, k: nat) -> Seq<char>
    decreases k,
{
    if k == 0 {
        Seq::empty()
    } else {
        hex_padded(n / 16, (k - 1) as nat).push(hex_digit(n % 16))
    }
}

/// The character of a hexadecimal digit.
fn hex_char(d: u8) -> (r: char)
    requires
        d < 16,
    ensures
        r == hex_digit(d as nat),
{
    if d < 10 {
        digit_char(d)
    } else {
        (87 + d) as char
    }
}

/// The last `k` hexadecimal digits of a number.
fn hex_chars(n: u64, k: u8) -> (r: Vec<char>)
    ensures
        r@ == hex_padded(n as nat, k as nat),
    decreases k,
{
    if k == 0 {
        let v: Vec<char> = Vec::new();
        v
    } else {
        let mut v = hex_chars(n / 16, k - 1);
        let d: u8 = (n % 16) as u8;
        v.push(hex_char(d));
        v
    }
}

/// A number as sixteen hexadecimal digits.
pub fn hex16(n: u64) -> (r: String)
    ensures
        r@ == hex_padded(n as nat, 16),
{
    let v = hex_chars(n, 16);
    string_of(v.as_slice())
}

// ---------- replacing ----------

/// The text with every occurrence of `p` replaced, from the left.
pub open spec fn replaced(s: Seq<char>, p: Seq<char>, w: Seq<char>) -> Seq<char>
    decreases s.len(),
{
    match find(s, p) {
        Some(i) => if p.len() > 0 && 0 <= i && i + p.len() <= s.len() {
            s.take(i) + w + replaced(s.skip(i + p.len()), p, w)
        } else {
            s
        },
        None => s,
    }
}

/// The text with every occurrence of `p` replaced, from the left.
pub fn replace_text(s: &str, p: &str, w: &str) -> (r: String)
    requires
        p@.len() > 0,
    ensures
        r@ == replaced(s@, p@, w@),
{
    let sc = chars_of(s);
    let pc = chars_of(p);
    let mut out = String::new();
    let mut from: usize = 0;
    let n: usize = sc.len();
    let k: usize = pc.len();
    assert(sc@.skip(0) =~= s@);
    assert(out@ + replaced(sc@.skip(0), p@, w@) =~= replaced(s@, p@, w@));
    while from < n
        invariant
            from <= n,
            n == sc@.len(),
            k == pc@.len(),
            pc@ == p@,
            k > 0,
            out@ + replaced(sc@.skip(from as int), p@, w@) == replaced(s@, p@, w@),
        decreases n - from,
    {
        let rest = cut(sc.as_slice(), from, n);
        let ghost tail = sc@.skip(from as int);
        assert(rest@ =~= tail);
        match find_chars(rest.as_slice(), pc.as_slice()) {
            Some(i) => {
                proof {
                    find_from_is_first(tail, p@, 0);
                }
                let head = cut(rest.as_slice(), 0, i);
                let ghost before = out@;
                out.append(string_of(head.as_slice()).as_str());
                out.append(w);
                proof {
                    assert(head@ =~= tail.take(i as int));
                    assert(tail.skip(i as int + k) =~= sc@.skip(from + i + k));
                    assert(out@ + replaced(sc@.skip(from + i + k), p@, w@) =~= before + (
                    tail.take(i as int) + w@ + replaced(tail.skip(i as int + k), p@, w@)));
                }
                from = from + i + k;
            },
            None => {
                out.append(string_of(rest.as_slice()).as_str());
                return out;
            },
        }
    }
    proof {
        let end = sc@.skip(n as int);
        find_from_is_first(end, p@, 0);
        assert(replaced(end, p@, w@) =~= Seq::<char>::empty());
        assert(out@ + replaced(end, p@, w@) =~= out@);
    }
    out
}

/// A text stands in itself.
pub broadcast proof fn stands_in_itself(s: Seq<char>)
    ensures
        #[trigger] contains(s, s),
{
    assert(s.subrange(0, s.len() as int) =~= s);
    assert(occurs_at(s, s, 0));
}

/// What stands in the first part of a text stands in the text.
pub broadcast proof fn stands_in_front(a: Seq<char>, b: Seq<char>, p: Seq<char>)
    requires
        contains(a, p),
    ensures
        #[trigger] contains(a + b, p),
{
    a_part_stands_in_a_longer_text(Seq::empty(), a, b, p);
    assert(Seq::<char>::empty() + (a + b) =~= a + b);
}

/// What stands in the second part of a text stands in the text.
pub broadcast proof fn stands_behind(a: Seq<char>, b: Seq<char>, p: Seq<char>)
    requires
        contains(b, p),
    ensures
        #[trigger] contains(a + b, p),
{
    a_part_stands_in_a_longer_text(a, b, Seq::empty(), p);
}

/// What stands in the parts of a text stands in the text.
pub broadcast group group_parts {
    stands_in_itself,
    stands_in_front,
    stands_behind,
}

/// What stands in a part of a text stands in the text.
pub proof fn a_part_of_a_part(s: Seq<char>, p: Seq<char>, q: Seq<char>)
    requires
        contains(s, p),
        contains(p, q),
    ensures
        contains(s, q),
{
    let i = choose|i: int| occurs_at(s, p, i);
    let j = choose|j: int| occurs_at(p, q, j);
    assert(s.subrange(i + j, i + j + q.len()) =~= p.subrange(j, j + q.len()));
    assert(occurs_at(s, q, i + j));
}

/// A line break behind a text without space around it is left out with the space.
pub proof fn a_line_break_behind_is_left_out(s: Seq<char>)
    requires
        s.len() > 0,
        trim(s) == s,
    ensures
        trim(s + "\n"@) == s,
{
    reveal_strlit("\n");
    let t = s + "\n"@;
    assert(t =~= s.push('\n'));
    content_start_bounds(s);
    content_end_bounds(trim_start(s));
    assert(content_start(s) == 0);
    assert(trim_start(s) =~= s);
    assert(content_end(s) == s.len());
    content_start_bounds(t);
    assert(t[0] == s[0]);
    assert(content_start(t) == 0);
    assert(trim_start(t) =~= t);
    assert(t.drop_last() =~= s);
    assert(content_end(t) == content_end(s));
    assert(t.take(s.len() as int) =~= s);
}

/// Where a text holds what is to be replaced, what replaces it stands in the result; where it
/// does not, the text stays as it is.
pub proof fn what_replaces_stands_in_the_text(s: Seq<char>, p: Seq<char>, w: Seq<char>)
    requires
        p.len() > 0,
    ensures
        contains(s, p) ==> contains(replaced(s, p, w), w),
        !contains(s, p) ==> replaced(s, p, w) == s,
{
    broadcast use group_parts;

    contains_is_found(s, p);
    find_from_is_first(s, p, 0);
    if let Some(i) = find(s, p) {
        let rest = replaced(s.skip(i + p.len()), p, w);
        assert(contains(s.take(i) + w + rest, w));
    }
}

/// What stands in a text and has nothing in common with what is replaced is still there: what
/// stands before the first place stays in front.
pub proof fn what_stands_before_stays(s: Seq<char>, p: Seq<char>, w: Seq<char>)
    requires
        p.len() > 0,
    ensures
        find(s, p) matches Some(i) ==> starts_with(replaced(s, p, w), s.take(i) + w),
{
    find_from_is_first(s, p, 0);
    if let Some(i) = find(s, p) {
        let rest = replaced(s.skip(i + p.len()), p, w);
        let front = s.take(i) + w;
        assert((front + rest).subrange(0, front.len() as int) =~= front);
    }
}

/// The first and the last characters of a text are as many as are asked for, or all of them.
pub proof fn parts_of_a_text_are_as_long_as_asked_for(s: Seq<char>, n: int)
    requires
        0 <= n,
    ensures
        s.len() <= n ==> first_chars(s, n) == s && last_chars(s, n) == s,
        s.len() > n ==> first_chars(s, n).len() == n && starts_with(s, first_chars(s, n)),
        s.len() > n ==> last_chars(s, n).len() == n && ends_with(s, last_chars(s, n)),
{
    if s.len() > n {
        assert(s.subrange(0, n) =~= first_chars(s, n));
        assert(s.subrange(s.len() - n, s.len() as int) =~= last_chars(s, n));
    }
}

/// Without brackets and quotes between them, an opening bracket is closed by the next closing
/// one.
proof fn a_plain_pair_closes(s: Seq<char>, i: int, end: int)
    requires
        0 <= i <= end < s.len(),
        s[end] == ']',
        forall|k: int| i <= k < end ==> s[k] != '[' && s[k] != ']' && s[k] != '"',
    ensures
        closing_from(s, i, 1, false) == Some(end),
    decreases end - i,
{
    if i < end {
        a_plain_pair_closes(s, i + 1, end);
    }
}

/// The first opening bracket and the next closing one are a pair where nothing between them
/// opens, closes or quotes.
pub proof fn a_plain_pair_is_found(s: Seq<char>, start: int, end: int)
    requires
        0 <= start < end < s.len(),
        s[start] == '[',
        s[end] == ']',
        forall|k: int| 0 <= k < start ==> s[k] != '[',
        forall|k: int| start < k < end ==> s[k] != '[' && s[k] != ']' && s[k] != '"',
    ensures
        first_pair(s) == Some((start, end)),
{
    find_from_is_first(s, seq!['['], 0);
    assert(s.subrange(start, start + 1) =~= seq!['[']);
    assert(occurs_at(s, seq!['['], start));
    assert forall|j: int| 0 <= j < start implies !occurs_at(s, seq!['['], j) by {
        if occurs_at(s, seq!['['], j) {
            assert(s.subrange(j, j + 1)[0] == s[j]);
        }
    }
    a_plain_pair_closes(s, start + 1, end);
}

/// A number below ten is written as its digit, and every other one as the number of its tens
/// followed by its last digit.
pub proof fn numbers_are_written_in_tens(n: nat)
    ensures
        decimal(0) == "0"@,
        decimal(7) == "7"@,
        n >= 10 ==> decimal(n).drop_last() == decimal(n / 10) && decimal(n).last() == digit(
            n % 10,
        ),
        n < 10 ==> decimal(n).len() == 1 && decimal(n)[0] as nat == '0' as nat + n,
{
    reveal_strlit("0");
    reveal_strlit("7");
    assert(decimal(0) =~= "0"@);
    assert(decimal(7) =~= "7"@);
    if n >= 10 {
        assert(decimal(n).drop_last() =~= decimal(n / 10));
    }
}

/// Writing in small letters changes capital letters into small ones, and nothing else.
pub proof fn only_capitals_are_made_small(s: Seq<char>, i: int)
    requires
        0 <= i < s.len(),
    ensures
        ascii_lowercased(s).len() == s.len(),
        'A' <= s[i] <= 'Z' ==> 'a' <= ascii_lowercased(s)[i] <= 'z' && ascii_lowercased(s)[i] as int
            - 'a' as int == s[i] as int - 'A' as int,
        !('A' <= s[i] <= 'Z') ==> ascii_lowercased(s)[i] == s[i],
{
}

/// A number is written with as many hexadecimal digits as asked for, the last of which is of
/// its sixteenths.
pub proof fn hexadecimal_digits_are_as_many_as_asked_for(n: nat, k: nat)
    ensures
        hex_padded(n, k).len() == k,
        k > 0 ==> hex_padded(n, k).last() == hex_digit(n % 16) && hex_padded(n, k).drop_last()
            == hex_padded(n / 16, (k - 1) as nat),
        hex_digit(0) == '0' && hex_digit(9) == '9' && hex_digit(10) == 'a' && hex_digit(15) == 'f',
    decreases k,
{
    if k > 0 {
        hexadecimal_digits_are_as_many_as_asked_for(n / 16, (k - 1) as nat);
        assert(hex_padded(n, k).drop_last() =~= hex_padded(n / 16, (k - 1) as nat));
    }
}

/// What neither opens, closes nor quotes is passed over.
proof fn plain_text_is_passed_over(s: Seq<char>, i: int, j: int, depth: int)
    requires
        0 <= i <= j <= s.len(),
        forall|k: int| i <= k < j ==> s[k] != '[' && s[k] != ']' && s[k] != '"',
    ensures
        closing_from(s, i, depth, false) == closing_from(s, j, depth, false),
    decreases j - i,
{
    if i < j {
        plain_text_is_passed_over(s, i + 1, j, depth);
    }
}

/// What stands in quotes is read up to the next quote.
proof fn a_quote_is_read_to_its_end(s: Seq<char>, i: int, j: int, depth: int)
    requires
        0 <= i <= j < s.len(),
        s[j] == '"',
        forall|k: int| i <= k < j ==> s[k] != '"' && s[k] != '\\',
    ensures
        closing_from(s, i, depth, true) == closing_from(s, j + 1, depth, false),
    decreases j - i,
{
    if i < j {
        a_quote_is_read_to_its_end(s, i + 1, j, depth);
    }
}

/// Whatever stands in quotes opens and closes nothing.
pub proof fn quotes_hide_brackets(s: Seq<char>, i: int, j: int, depth: int)
    requires
        0 <= i < j < s.len(),
        s[i] == '"',
        s[j] == '"',
        forall|k: int| i < k < j ==> s[k] != '"' && s[k] != '\\',
    ensures
        closing_from(s, i, depth, false) == closing_from(s, j + 1, depth, false),
{
    a_quote_is_read_to_its_end(s, i + 1, j, depth);
}

/// A pair of brackets within another does not close it.
pub proof fn an_inner_pair_does_not_close(s: Seq<char>, a: int, b: int, c: int, d: int)
    requires
        0 <= a < b < c < d < s.len(),
        s[a] == '[' && s[b] == '[' && s[c] == ']' && s[d] == ']',
        forall|k: int| 0 <= k < a ==> s[k] != '[',
        forall|k: int|
            a < k < d && k != b && k != c ==> s[k] != '[' && s[k] != ']' && s[k] != '"',
    ensures
        first_pair(s) == Some((a, d)),
{
    find_from_is_first(s, seq!['['], 0);
    assert(s.subrange(a, a + 1) =~= seq!['[']);
    assert(occurs_at(s, seq!['['], a));
    assert forall|j: int| 0 <= j < a implies !occurs_at(s, seq!['['], j) by {
        if occurs_at(s, seq!['['], j) {
            assert(s.subrange(j, j + 1)[0] == s[j]);
        }
    }
    assert(closing_from(s, a, 0, false) == closing_from(s, a + 1, 1, false));
    plain_text_is_passed_over(s, a + 1, b, 1);
    assert(closing_from(s, b, 1, false) == closing_from(s, b + 1, 2, false));
    plain_text_is_passed_over(s, b + 1, c, 2);
    assert(closing_from(s, c, 2, false) == closing_from(s, c + 1, 1, false));
    plain_text_is_passed_over(s, c + 1, d, 1);
}

/// Brackets are outer where they stand around the braces on both sides.
pub proof fn outer_brackets_stand_around(a: int, b: int, c: int, d: int)
    requires
        a < b < c < d,
    ensures
        encloses((a, d), (b, c)),
        !encloses((b, d), (a, c)),
        !encloses((a, c), (b, d)),
        !encloses((a, b), (c, d)),
        !encloses((b, c), (a, d)),
{
}

} // verus!
