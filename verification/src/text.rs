//! Text as a sequence of characters.
//!
//! The rules of this library look at command lines, file names, tokens and
//! labels one character at a time. Every function here is stated over the
//! `Seq<char>` that a string views as.

use vstd::prelude::*;

verus! {

/// `String::push` appends one character.
pub assume_specification[ String::push ](s: &mut String, c: char)
    ensures
        final(s)@ == old(s)@.push(c),
;

/// The characters with the Unicode property `White_Space`.
pub open spec fn is_space(c: char) -> bool {
    let n = c as u32;
    ||| 0x9 <= n <= 0xD
    ||| n == 0x20
    ||| n == 0x85
    ||| n == 0xA0
    ||| n == 0x1680
    ||| 0x2000 <= n <= 0x200A
    ||| n == 0x2028
    ||| n == 0x2029
    ||| n == 0x202F
    ||| n == 0x205F
    ||| n == 0x3000
}

/// `s` without the white space it starts with.
pub open spec fn trim_start_of(s: Seq<char>) -> Seq<char>
    decreases s.len(),
{
    if s.len() > 0 && is_space(s[0]) {
        trim_start_of(s.drop_first())
    } else {
        s
    }
}

/// `s` without the white space it ends with.
pub open spec fn trim_end_of(s: Seq<char>) -> Seq<char>
    decreases s.len(),
{
    if s.len() > 0 && is_space(s.last()) {
        trim_end_of(s.drop_last())
    } else {
        s
    }
}

/// `s` without the white space at either end.
pub open spec fn trim_of(s: Seq<char>) -> Seq<char> {
    trim_end_of(trim_start_of(s))
}

/// Nothing but white space.
pub open spec fn blank(s: Seq<char>) -> bool {
    forall|i: int| 0 <= i < s.len() ==> is_space(#[trigger] s[i])
}

/// An upper-case ASCII letter in lower case; any other character as it is.
pub open spec fn lower_char(c: char) -> char {
    if 'A' <= c <= 'Z' {
        (c as u32 + 32) as char
    } else {
        c
    }
}

/// `s` with its upper-case ASCII letters in lower case.
pub open spec fn lower_of(s: Seq<char>) -> Seq<char> {
    Seq::new(s.len(), |i: int| lower_char(s[i]))
}

/// `part` stands in `s` from position `at` on.
pub open spec fn occurs_at(s: Seq<char>, part: Seq<char>, at: int) -> bool {
    0 <= at && at + part.len() <= s.len() && s.subrange(at, at + part.len()) == part
}

/// `part` stands somewhere in `s`.
pub open spec fn has_part(s: Seq<char>, part: Seq<char>) -> bool {
    exists|at: int| occurs_at(s, part, at)
}

/// The first position at or after `from` at which `part` stands in `s`.
pub open spec fn find_from(s: Seq<char>, part: Seq<char>, from: int) -> Option<int>
    decreases s.len() - from + 1,
{
    if from < 0 || from + part.len() > s.len() {
        None
    } else if occurs_at(s, part, from) {
        Some(from)
    } else {
        find_from(s, part, from + 1)
    }
}

/// The first position at which `part` stands in `s`.
pub open spec fn find_of(s: Seq<char>, part: Seq<char>) -> Option<int> {
    find_from(s, part, 0)
}

pub open spec fn starts_with_of(s: Seq<char>, part: Seq<char>) -> bool {
    occurs_at(s, part, 0)
}

pub open spec fn ends_with_of(s: Seq<char>, part: Seq<char>) -> bool {
    occurs_at(s, part, s.len() - part.len())
}

/// The order of strings: by the first character in which they differ, and a
/// proper prefix before the longer string.
pub open spec fn text_less(a: Seq<char>, b: Seq<char>) -> bool
    decreases a.len(),
{
    if b.len() == 0 {
        false
    } else if a.len() == 0 {
        true
    } else if a[0] != b[0] {
        a[0] < b[0]
    } else {
        text_less(a.drop_first(), b.drop_first())
    }
}

/// What a sequence of strings holds.
pub open spec fn texts(v: Seq<String>) -> Seq<Seq<char>> {
    v.map_values(|t: String| t@)
}

/// What an optional string holds.
pub open spec fn opt_text(s: Option<String>) -> Option<Seq<char>> {
    match s {
        Some(t) => Some(t@),
        None => None,
    }
}

/// What an optional string slice holds.
pub open spec fn opt_str(s: Option<&str>) -> Option<Seq<char>> {
    match s {
        Some(t) => Some(t@),
        None => None,
    }
}

// ---------------------------------------------------------------------------
// Facts
// ---------------------------------------------------------------------------

/// Trimming the front leaves a tail of the text that does not start with
/// white space; what went was white space.
pub proof fn lemma_trim_start(s: Seq<char>) -> (cut: int)
    ensures
        0 <= cut <= s.len(),
        trim_start_of(s) == s.skip(cut),
        forall|i: int| 0 <= i < cut ==> is_space(#[trigger] s[i]),
        cut < s.len() ==> !is_space(s[cut]),
    decreases s.len(),
{
    if s.len() > 0 && is_space(s[0]) {
        let rest = lemma_trim_start(s.drop_first());
        assert(s.drop_first().skip(rest) == s.skip(rest + 1));
        assert forall|i: int| 0 <= i < rest + 1 implies is_space(#[trigger] s[i]) by {
            if i > 0 {
                assert(s.drop_first()[i - 1] == s[i]);
            }
        }
        rest + 1
    } else {
        assert(s.skip(0) == s);
        0
    }
}

/// Trimming the end leaves a head of the text that does not end with white
/// space; what went was white space.
pub proof fn lemma_trim_end(s: Seq<char>) -> (keep: int)
    ensures
        0 <= keep <= s.len(),
        trim_end_of(s) == s.take(keep),
        forall|i: int| keep <= i < s.len() ==> is_space(#[trigger] s[i]),
        keep > 0 ==> !is_space(s[keep - 1]),
    decreases s.len(),
{
    if s.len() > 0 && is_space(s.last()) {
        let keep = lemma_trim_end(s.drop_last());
        assert(s.drop_last().take(keep) == s.take(keep));
        assert forall|i: int| keep <= i < s.len() implies is_space(#[trigger] s[i]) by {
            if i < s.len() - 1 {
                assert(s.drop_last()[i] == s[i]);
            }
        }
        keep
    } else {
        assert(s.take(s.len() as int) == s);
        s.len() as int
    }
}

/// A text is blank exactly when nothing is left of it after trimming.
pub proof fn lemma_blank_iff_trim_empty(s: Seq<char>)
    ensures
        blank(s) <==> trim_of(s).len() == 0,
{
    let cut = lemma_trim_start(s);
    let t = s.skip(cut);
    let keep = lemma_trim_end(t);
    if blank(s) {
        if cut < s.len() {
            assert(is_space(s[cut]));
        }
    }
    if trim_of(s).len() == 0 {
        assert(keep == 0);
        assert forall|i: int| 0 <= i < s.len() implies is_space(#[trigger] s[i]) by {
            if i >= cut {
                assert(t[i - cut] == s[i]);
            }
        }
    }
}

/// `find_from` gives the least position at or after `from`, and nothing only
/// when there is none.
pub proof fn lemma_find_from(s: Seq<char>, part: Seq<char>, from: int)
    requires
        0 <= from,
    ensures
        find_from(s, part, from) matches Some(at) ==> {
            &&& from <= at
            &&& at + part.len() <= s.len()
            &&& occurs_at(s, part, at)
            &&& forall|k: int| from <= k < at ==> !occurs_at(s, part, k)
        },
        find_from(s, part, from) is None ==> forall|k: int| from <= k ==> !occurs_at(s, part, k),
    decreases s.len() - from + 1,
{
    if from + part.len() <= s.len() && !occurs_at(s, part, from) {
        lemma_find_from(s, part, from + 1);
        assert forall|k: int| from <= k && find_from(s, part, from) is None implies !occurs_at(
            s,
            part,
            k,
        ) by {
            if k > from {
                assert(from + 1 <= k);
            }
        }
    }
}

/// Something stands in a text exactly when it can be found.
pub proof fn lemma_has_part_iff_found(s: Seq<char>, part: Seq<char>)
    ensures
        has_part(s, part) <==> find_of(s, part) is Some,
{
    lemma_find_from(s, part, 0);
    if find_of(s, part) is Some {
        assert(occurs_at(s, part, find_of(s, part)->Some_0));
    }
}

/// `text_less` is the strict part of a total order.
pub proof fn lemma_text_less_total(a: Seq<char>, b: Seq<char>)
    ensures
        !(text_less(a, b) && text_less(b, a)),
        a != b ==> text_less(a, b) || text_less(b, a),
        !text_less(a, a),
    decreases a.len(),
{
    if a.len() > 0 {
        if b.len() > 0 {
            lemma_text_less_total(a.drop_first(), b.drop_first());
            if a[0] == b[0] && a.drop_first() == b.drop_first() {
                assert(a == seq![a[0]] + a.drop_first());
                assert(b == seq![b[0]] + b.drop_first());
            }
        } else {
            lemma_text_less_total(a.drop_first(), b);
        }
    } else if b.len() == 0 {
        assert(a == b);
    }
}

pub proof fn lemma_text_less_transitive(a: Seq<char>, b: Seq<char>, c: Seq<char>)
    requires
        text_less(a, b),
        text_less(b, c),
    ensures
        text_less(a, c),
    decreases a.len(),
{
    if a.len() > 0 && a[0] == b[0] && b[0] == c[0] {
        lemma_text_less_transitive(a.drop_first(), b.drop_first(), c.drop_first());
    }
}

/// A text without the white space around it is a part of it.
pub proof fn lemma_trim_is_part(s: Seq<char>)
    ensures
        has_part(s, trim_of(s)),
{
    let cut = lemma_trim_start(s);
    let rest = s.skip(cut);
    let keep = lemma_trim_end(rest);
    assert(rest.take(keep) =~= s.subrange(cut, cut + keep));
    assert(occurs_at(s, trim_of(s), cut));
}

/// A part of a part is a part.
pub proof fn lemma_part_of_part(s: Seq<char>, part: Seq<char>, smaller: Seq<char>)
    requires
        has_part(s, part),
        has_part(part, smaller),
    ensures
        has_part(s, smaller),
{
    let a = choose|at: int| occurs_at(s, part, at);
    let b = choose|at: int| occurs_at(part, smaller, at);
    assert(s.subrange(a + b, a + b + smaller.len()) =~= s.subrange(a, a + part.len()).subrange(
        b,
        b + smaller.len(),
    ));
    assert(occurs_at(s, smaller, a + b));
}

/// Trimming takes off white space at both ends and nothing else.
pub proof fn law_trimming_takes_off_white_space(s: Seq<char>) -> (ends: (Seq<char>, Seq<char>))
    ensures
        s == ends.0 + trim_of(s) + ends.1,
        forall|i: int| 0 <= i < ends.0.len() ==> is_space(#[trigger] ends.0[i]),
        forall|i: int| 0 <= i < ends.1.len() ==> is_space(#[trigger] ends.1[i]),
        trim_of(s).len() > 0 ==> !is_space(trim_of(s)[0]) && !is_space(trim_of(s).last()),
{
    let cut = lemma_trim_start(s);
    let rest = s.skip(cut);
    let keep = lemma_trim_end(rest);
    let front = s.take(cut);
    let back = rest.skip(keep);
    assert(s =~= front + rest.take(keep) + back);
    assert forall|i: int| 0 <= i < back.len() implies is_space(#[trigger] back[i]) by {
        assert(back[i] == rest[keep + i]);
    }
    if keep > 0 {
        assert(rest[0] == s[cut]);
    }
    (front, back)
}

// ---------------------------------------------------------------------------
// Functions
// ---------------------------------------------------------------------------

/// Whether `c` is white space.
pub fn space(c: char) -> (r: bool)
    ensures
        r == is_space(c),
{
    let n: u32 = c as u32;
    (0x9 <= n && n <= 0xD) || n == 0x20 || n == 0x85 || n == 0xA0 || n == 0x1680 || (0x2000 <= n
        && n <= 0x200A) || n == 0x2028 || n == 0x2029 || n == 0x202F || n == 0x205F || n == 0x3000
}

/// The characters of `s`.
pub fn chars_of(s: &str) -> (v: Vec<char>)
    ensures
        v@ == s@,
{
    let mut v: Vec<char> = Vec::new();
    for c in it: s.chars()
        invariant
            v@ == s@.take(it.index()),
            it.seq() == s@,
    {
        v.push(c);
        assert(s@.take(it.index() + 1) == s@.take(it.index()).push(c));
    }
    assert(s@.take(s@.len() as int) == s@);
    v
}

/// The string made of `v[from..to]`.
pub fn text_between(v: &Vec<char>, from: usize, to: usize) -> (s: String)
    requires
        from <= to <= v@.len(),
    ensures
        s@ == v@.subrange(from as int, to as int),
{
    let mut s = String::new();
    let mut i: usize = from;
    while i < to
        invariant
            from <= i <= to <= v@.len(),
            s@ == v@.subrange(from as int, i as int),
        decreases to - i,
    {
        s.push(v[i]);
        assert(v@.subrange(from as int, i + 1) == v@.subrange(from as int, i as int).push(
            v@[i as int],
        ));
        i = i + 1;
    }
    s
}

/// Whether `a` and `b` are the same text.
pub fn same(a: &str, b: &str) -> (r: bool)
    ensures
        r == (a@ == b@),
{
    let x = chars_of(a);
    let y = chars_of(b);
    if x.len() != y.len() {
        return false;
    }
    let mut i: usize = 0;
    while i < x.len()
        invariant
            x@ == a@,
            y@ == b@,
            x@.len() == y@.len(),
            i <= x@.len(),
            forall|k: int| 0 <= k < i ==> x@[k] == y@[k],
        decreases x@.len() - i,
    {
        if x[i] != y[i] {
            return false;
        }
        i = i + 1;
    }
    assert(x@ == y@);
    true
}

/// `s` without the white space at either end.
pub fn trim(s: &str) -> (r: String)
    ensures
        r@ == trim_of(s@),
{
    let v = chars_of(s);
    let mut from: usize = 0;
    assert(s@.skip(0) == s@);
    while from < v.len() && space(v[from])
        invariant
            from <= v@.len(),
            v@ == s@,
            trim_start_of(s@) == trim_start_of(s@.skip(from as int)),
        decreases v@.len() - from,
    {
        proof {
            assert(s@.skip(from as int)[0] == s@[from as int]);
            assert(s@.skip(from as int).drop_first() == s@.skip(from + 1));
        }
        from = from + 1;
    }
    proof {
        if from < v@.len() {
            assert(s@.skip(from as int)[0] == s@[from as int]);
        }
        assert(trim_start_of(s@) == s@.skip(from as int));
        assert(s@.subrange(from as int, v@.len() as int) == s@.skip(from as int));
    }
    let mut to: usize = v.len();
    while to > from && space(v[to - 1])
        invariant
            from <= to <= v@.len(),
            v@ == s@,
            trim_end_of(s@.skip(from as int)) == trim_end_of(
                s@.subrange(from as int, to as int),
            ),
        decreases to - from,
    {
        proof {
            let t = s@.subrange(from as int, to as int);
            assert(t.last() == s@[to - 1]);
            assert(t.drop_last() == s@.subrange(from as int, to - 1));
        }
        to = to - 1;
    }
    proof {
        let t = s@.subrange(from as int, to as int);
        if to > from {
            assert(t.last() == s@[to - 1]);
        }
    }
    text_between(&v, from, to)
}

/// `s` without the white space at its front.
pub fn trim_start(s: &str) -> (r: String)
    ensures
        r@ == trim_start_of(s@),
{
    let v = chars_of(s);
    let len: usize = v.len();
    let mut from: usize = 0;
    assert(s@.skip(0) == s@);
    while from < len && space(v[from])
        invariant
            len == v@.len(),
            from <= len,
            v@ == s@,
            trim_start_of(s@) == trim_start_of(s@.skip(from as int)),
        decreases len - from,
    {
        proof {
            assert(s@.skip(from as int)[0] == s@[from as int]);
            assert(s@.skip(from as int).drop_first() == s@.skip(from + 1));
        }
        from = from + 1;
    }
    proof {
        if from < len {
            assert(s@.skip(from as int)[0] == s@[from as int]);
        }
        assert(s@.subrange(from as int, len as int) == s@.skip(from as int));
    }
    text_between(&v, from, len)
}

/// Whether `s` holds nothing but white space.
pub fn is_blank(s: &str) -> (r: bool)
    ensures
        r == blank(s@),
        r == (trim_of(s@).len() == 0),
{
    proof {
        lemma_blank_iff_trim_empty(s@);
    }
    let v = chars_of(s);
    let mut i: usize = 0;
    while i < v.len()
        invariant
            v@ == s@,
            i <= v@.len(),
            blank(s@) <==> trim_of(s@).len() == 0,
            forall|k: int| 0 <= k < i ==> is_space(#[trigger] s@[k]),
        decreases v@.len() - i,
    {
        if !space(v[i]) {
            assert(!is_space(s@[i as int]));
            return false;
        }
        i = i + 1;
    }
    true
}

/// `c` in lower case where it is an upper-case ASCII letter.
pub fn ascii_lower(c: char) -> (r: char)
    ensures
        r == lower_char(c),
{
    if 'A' <= c && c <= 'Z' {
        let n: u8 = c as u8;
        (n + 32) as char
    } else {
        c
    }
}

/// `s` with its upper-case ASCII letters in lower case.
pub fn to_lower(s: &str) -> (r: String)
    ensures
        r@ == lower_of(s@),
{
    let mut r = String::new();
    for c in it: s.chars()
        invariant
            r@ == lower_of(s@.take(it.index())),
            it.seq() == s@,
    {
        r.push(ascii_lower(c));
        assert(lower_of(s@.take(it.index() + 1)) == lower_of(s@.take(it.index())).push(
            lower_char(c),
        ));
    }
    assert(s@.take(s@.len() as int) == s@);
    r
}

/// Whether `part` stands in `v` from position `at` on.
pub fn stands_at(v: &Vec<char>, part: &Vec<char>, at: usize) -> (r: bool)
    ensures
        r == occurs_at(v@, part@, at as int),
{
    if part.len() > v.len() || at > v.len() - part.len() {
        return false;
    }
    let len: usize = v.len();
    let mut k: usize = 0;
    while k < part.len()
        invariant
            len == v@.len(),
            at + part@.len() <= v@.len(),
            k <= part@.len(),
            forall|j: int| 0 <= j < k ==> v@[at + j] == part@[j],
        decreases part@.len() - k,
    {
        if v[at + k] != part[k] {
            assert(v@.subrange(at as int, at + part@.len())[k as int] == v@[at + k]);
            return false;
        }
        k = k + 1;
    }
    assert(v@.subrange(at as int, at + part@.len()) == part@);
    true
}

/// The first position at or after `from` at which `part` stands in `v`.
pub fn position_from(v: &Vec<char>, part: &Vec<char>, from: usize) -> (r: Option<usize>)
    requires
        from <= v@.len(),
    ensures
        match r {
            Some(at) => find_from(v@, part@, from as int) == Some(at as int),
            None => find_from(v@, part@, from as int) is None,
        },
{
    if part.len() > v.len() {
        return None;
    }
    let last: usize = v.len() - part.len();
    let mut at: usize = from;
    while at <= last
        invariant
            last == v@.len() - part@.len(),
            from <= at <= v@.len() + 1,
            at <= last + 1 || at == from,
            find_from(v@, part@, from as int) == find_from(v@, part@, at as int),
        decreases last + 1 - at,
    {
        if stands_at(v, part, at) {
            return Some(at);
        }
        if at == last {
            assert(find_from(v@, part@, at + 1) is None);
            return None;
        }
        at = at + 1;
    }
    None
}

/// The first position at which `part` stands in `s`, in characters.
pub fn find_text(s: &str, part: &str) -> (r: Option<usize>)
    ensures
        match r {
            Some(at) => find_of(s@, part@) == Some(at as int),
            None => find_of(s@, part@) is None,
        },
{
    let v = chars_of(s);
    let p = chars_of(part);
    position_from(&v, &p, 0)
}

/// Whether `part` stands somewhere in `s`.
pub fn contains_text(s: &str, part: &str) -> (r: bool)
    ensures
        r == has_part(s@, part@),
{
    proof {
        lemma_has_part_iff_found(s@, part@);
    }
    find_text(s, part).is_some()
}

pub fn starts_with_text(s: &str, part: &str) -> (r: bool)
    ensures
        r == starts_with_of(s@, part@),
{
    let v = chars_of(s);
    let p = chars_of(part);
    stands_at(&v, &p, 0)
}

pub fn ends_with_text(s: &str, part: &str) -> (r: bool)
    ensures
        r == ends_with_of(s@, part@),
{
    let v = chars_of(s);
    let p = chars_of(part);
    if p.len() > v.len() {
        return false;
    }
    stands_at(&v, &p, v.len() - p.len())
}

/// What follows `prefix` in `s`, where `s` starts with it.
pub fn strip_prefix_text(s: &str, prefix: &str) -> (r: Option<String>)
    ensures
        match r {
            Some(rest) => starts_with_of(s@, prefix@) && rest@ == s@.skip(prefix@.len() as int),
            None => !starts_with_of(s@, prefix@),
        },
{
    let v = chars_of(s);
    let p = chars_of(prefix);
    if stands_at(&v, &p, 0) {
        let rest = text_between(&v, p.len(), v.len());
        assert(v@.subrange(p@.len() as int, v@.len() as int) == v@.skip(p@.len() as int));
        Some(rest)
    } else {
        None
    }
}

/// What stands before `suffix` in `s`, where `s` ends with it.
pub fn strip_suffix_text(s: &str, suffix: &str) -> (r: Option<String>)
    ensures
        match r {
            Some(rest) => ends_with_of(s@, suffix@) && rest@ == s@.take(s@.len() - suffix@.len()),
            None => !ends_with_of(s@, suffix@),
        },
{
    let v = chars_of(s);
    let p = chars_of(suffix);
    if p.len() <= v.len() && stands_at(&v, &p, v.len() - p.len()) {
        let rest = text_between(&v, 0, v.len() - p.len());
        assert(v@.subrange(0, v@.len() - p@.len()) == v@.take(v@.len() - p@.len()));
        Some(rest)
    } else {
        None
    }
}

/// Whether `a` comes before `b` in the order of strings.
pub fn comes_before(a: &str, b: &str) -> (r: bool)
    ensures
        r == text_less(a@, b@),
{
    let x = chars_of(a);
    let y = chars_of(b);
    let mut i: usize = 0;
    proof {
        assert(a@.skip(0) == a@);
        assert(b@.skip(0) == b@);
    }
    while i < x.len() && i < y.len()
        invariant
            x@ == a@,
            y@ == b@,
            i <= x@.len(),
            i <= y@.len(),
            text_less(a@, b@) == text_less(a@.skip(i as int), b@.skip(i as int)),
        decreases x@.len() - i,
    {
        proof {
            assert(a@.skip(i as int)[0] == a@[i as int]);
            assert(b@.skip(i as int)[0] == b@[i as int]);
            assert(a@.skip(i as int).drop_first() == a@.skip(i + 1));
            assert(b@.skip(i as int).drop_first() == b@.skip(i + 1));
        }
        if x[i] != y[i] {
            return x[i] < y[i];
        }
        i = i + 1;
    }
    i < y.len()
}

/// A string with the text of `a` followed by that of `b`.
pub fn joined(a: &str, b: &str) -> (r: String)
    ensures
        r@ == a@ + b@,
{
    let mut r = a.to_string();
    r.append(b);
    r
}

/// A copy of an optional string.
pub fn copy_opt(s: &Option<String>) -> (r: Option<String>)
    ensures
        r == *s,
{
    match s {
        Some(t) => Some(t.clone()),
        None => None,
    }
}

/// Whether two optional texts are the same.
pub fn same_opt(a: Option<&str>, b: Option<&str>) -> (r: bool)
    ensures
        r == (opt_str(a) == opt_str(b)),
{
    match (a, b) {
        (Some(x), Some(y)) => same(x, y),
        (None, None) => true,
        _ => false,
    }
}

/// The text of an optional string.
pub fn as_opt_str(s: &Option<String>) -> (r: Option<&str>)
    ensures
        opt_str(r) == opt_text(*s),
{
    match s {
        Some(t) => Some(t.as_str()),
        None => None,
    }
}

} // verus!
