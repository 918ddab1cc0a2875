//! Cutting text into pieces, and putting pieces together.

use vstd::prelude::*;

use crate::text;

verus! {

/// The pieces of `s` between the characters `cut`: one more than `s` holds of
/// them.
pub open spec fn split_of(s: Seq<char>, cut: char) -> Seq<Seq<char>>
    decreases s.len(),
{
    if s.len() == 0 {
        seq![Seq::<char>::empty()]
    } else {
        let before = split_of(s.drop_last(), cut);
        if s.last() == cut {
            before.push(Seq::<char>::empty())
        } else {
            before.update(before.len() - 1, before.last().push(s.last()))
        }
    }
}

/// A line without the carriage return before its line feed.
pub open spec fn without_cr(line: Seq<char>) -> Seq<char> {
    if line.len() > 0 && line.last() == '\r' {
        line.drop_last()
    } else {
        line
    }
}

/// The lines of `s`. A line ends with a line feed, before which one carriage
/// return may stand; what follows the last line feed is a line where it is not
/// empty.
pub open spec fn lines_of(s: Seq<char>) -> Seq<Seq<char>> {
    let pieces = split_of(s, '\n');
    let ended = pieces.drop_last().map_values(|line: Seq<char>| without_cr(line));
    if pieces.last().len() == 0 {
        ended
    } else {
        ended.push(pieces.last())
    }
}

/// The longest stretches of `s` that hold no white space.
pub open spec fn words_of(s: Seq<char>) -> Seq<Seq<char>>
    decreases s.len(),
{
    if s.len() == 0 {
        Seq::empty()
    } else {
        let before = words_of(s.drop_last());
        if text::is_space(s.last()) {
            before
        } else if s.len() == 1 || text::is_space(s[s.len() - 2]) {
            before.push(seq![s.last()])
        } else {
            before.update(before.len() - 1, before.last().push(s.last()))
        }
    }
}

/// The pieces one after the other, with `between` between each two.
pub open spec fn join_of(pieces: Seq<Seq<char>>, between: Seq<char>) -> Seq<char>
    decreases pieces.len(),
{
    if pieces.len() == 0 {
        Seq::empty()
    } else if pieces.len() == 1 {
        pieces[0]
    } else {
        join_of(pieces.drop_last(), between) + between + pieces.last()
    }
}

/// `s` with each character `from` replaced by the text `to`.
pub open spec fn replace_char_of(s: Seq<char>, from: char, to: Seq<char>) -> Seq<char>
    decreases s.len(),
{
    if s.len() == 0 {
        Seq::empty()
    } else {
        replace_char_of(s.drop_last(), from, to) + (if s.last() == from {
            to
        } else {
            seq![s.last()]
        })
    }
}

/// `s` with `part` replaced by `to`, wherever `part` stands in `s` when it is
/// looked for from the left and what was replaced is not looked at again. An
/// empty `part` is replaced nowhere.
pub open spec fn replace_of(s: Seq<char>, part: Seq<char>, to: Seq<char>) -> Seq<char>
    decreases s.len(),
{
    match text::find_of(s, part) {
        Some(at) if 0 < part.len() && 0 <= at && at + part.len() <= s.len() => s.take(at) + to
            + replace_of(s.skip(at + part.len()), part, to),
        _ => s,
    }
}

/// `s` without its white space.
pub open spec fn squeeze_of(s: Seq<char>) -> Seq<char>
    decreases s.len(),
{
    if s.len() == 0 {
        Seq::empty()
    } else if text::is_space(s.last()) {
        squeeze_of(s.drop_last())
    } else {
        squeeze_of(s.drop_last()).push(s.last())
    }
}

/// The part of `s` before the last `cut`, and the part after it.
pub open spec fn rsplit_once_of(s: Seq<char>, cut: char) -> Option<(Seq<char>, Seq<char>)>
    decreases s.len(),
{
    if s.len() == 0 {
        None
    } else if s.last() == cut {
        Some((s.drop_last(), Seq::empty()))
    } else {
        match rsplit_once_of(s.drop_last(), cut) {
            Some((before, after)) => Some((before, after.push(s.last()))),
            None => None,
        }
    }
}

/// The part of `s` before the first `cut`, and the part after it.
pub open spec fn split_once_of(s: Seq<char>, cut: char) -> Option<(Seq<char>, Seq<char>)>
    decreases s.len(),
{
    if s.len() == 0 {
        None
    } else if s[0] == cut {
        Some((Seq::empty(), s.drop_first()))
    } else {
        match split_once_of(s.drop_first(), cut) {
            Some((before, after)) => Some((seq![s[0]] + before, after)),
            None => None,
        }
    }
}

// ---------------------------------------------------------------------------
// Facts
// ---------------------------------------------------------------------------

pub proof fn lemma_split_nonempty(s: Seq<char>, cut: char)
    ensures
        split_of(s, cut).len() > 0,
    decreases s.len(),
{
    if s.len() > 0 {
        lemma_split_nonempty(s.drop_last(), cut);
    }
}

/// A text without white space is left as it is when its white space is taken
/// out.
pub proof fn lemma_squeeze_fixed(s: Seq<char>)
    requires
        forall|i: int| 0 <= i < s.len() ==> !text::is_space(#[trigger] s[i]),
    ensures
        squeeze_of(s) == s,
    decreases s.len(),
{
    if s.len() > 0 {
        assert forall|i: int| 0 <= i < s.drop_last().len() implies !text::is_space(
            #[trigger] s.drop_last()[i],
        ) by {
            assert(s.drop_last()[i] == s[i]);
        }
        lemma_squeeze_fixed(s.drop_last());
        assert(s.drop_last().push(s.last()) == s);
    }
}

pub proof fn lemma_texts_push(v: Seq<String>, s: String)
    ensures
        text::texts(v.push(s)) == text::texts(v).push(s@),
{
    assert(text::texts(v.push(s)) =~= text::texts(v).push(s@));
}

// ---------------------------------------------------------------------------
// Functions
// ---------------------------------------------------------------------------

/// The pieces of `s` between the characters `cut`.
pub fn split(s: &str, cut: char) -> (r: Vec<String>)
    ensures
        text::texts(r@) == split_of(s@, cut),
{
    let mut done: Vec<String> = Vec::new();
    let mut open = String::new();
    proof {
        assert(text::texts(done@).push(open@) =~= split_of(s@.take(0), cut));
    }
    for c in it: s.chars()
        invariant
            it.seq() == s@,
            text::texts(done@).push(open@) == split_of(s@.take(it.index()), cut),
    {
        let ghost so_far = text::texts(done@).push(open@);
        let ghost next = s@.take(it.index() + 1);
        proof {
            assert(next.drop_last() == s@.take(it.index()));
            assert(next.last() == c);
        }
        if c == cut {
            proof {
                lemma_texts_push(done@, open);
            }
            done.push(open);
            open = String::new();
            assert(text::texts(done@).push(open@) =~= so_far.push(Seq::<char>::empty()));
        } else {
            open.push(c);
            assert(text::texts(done@).push(open@) =~= so_far.update(
                so_far.len() - 1,
                so_far.last().push(c),
            ));
        }
    }
    proof {
        assert(s@.take(s@.len() as int) == s@);
        lemma_texts_push(done@, open);
    }
    done.push(open);
    done
}

/// The lines of `s`.
pub fn lines(s: &str) -> (r: Vec<String>)
    ensures
        text::texts(r@) == lines_of(s@),
{
    let pieces = split(s, '\n');
    let ghost all = split_of(s@, '\n');
    proof {
        lemma_split_nonempty(s@, '\n');
    }
    assert(pieces@.len() == all.len());
    let mut r: Vec<String> = Vec::new();
    let mut i: usize = 0;
    let last: usize = pieces.len() - 1;
    let ghost ended = all.drop_last().map_values(|line: Seq<char>| without_cr(line));
    while i < last
        invariant
            text::texts(pieces@) == all,
            last == pieces@.len() - 1,
            i <= last,
            ended == all.drop_last().map_values(|line: Seq<char>| without_cr(line)),
            text::texts(r@) == ended.take(i as int),
        decreases last - i,
    {
        assert(pieces@[i as int]@ == all[i as int]);
        let v = text::chars_of(pieces[i].as_str());
        let line = if v.len() > 0 && v[v.len() - 1] == '\r' {
            let t = text::text_between(&v, 0, v.len() - 1);
            assert(v@.subrange(0, v@.len() - 1) == v@.drop_last());
            t
        } else {
            pieces[i].clone()
        };
        proof {
            assert(line@ == ended[i as int]);
            lemma_texts_push(r@, line);
            assert(ended.take(i + 1) == ended.take(i as int).push(ended[i as int]));
        }
        r.push(line);
        i = i + 1;
    }
    assert(ended.take(last as int) == ended);
    assert(pieces@[last as int]@ == all.last());
    if !pieces[last].as_str().is_empty() {
        let tail = pieces[last].clone();
        proof {
            lemma_texts_push(r@, tail);
        }
        r.push(tail);
    }
    r
}

/// The longest stretches of `s` that hold no white space.
pub fn words(s: &str) -> (r: Vec<String>)
    ensures
        text::texts(r@) == words_of(s@),
{
    let mut done: Vec<String> = Vec::new();
    let mut open = String::new();
    let v = text::chars_of(s);
    let mut i: usize = 0;
    proof {
        assert(text::texts(done@) =~= words_of(s@.take(0)));
    }
    while i < v.len()
        invariant
            v@ == s@,
            i <= v@.len(),
            open@.len() > 0 <==> (i > 0 && !text::is_space(s@[i - 1])),
            open@.len() > 0 ==> text::texts(done@).push(open@) == words_of(s@.take(i as int)),
            open@.len() == 0 ==> text::texts(done@) == words_of(s@.take(i as int)),
        decreases v@.len() - i,
    {
        let c = v[i];
        let ghost before = words_of(s@.take(i as int));
        proof {
            let next = s@.take(i + 1);
            assert(next.drop_last() == s@.take(i as int));
            assert(next.last() == c);
            if i > 0 {
                assert(next[i - 1] == s@[i - 1]);
            }
        }
        if text::space(c) {
            if !open.as_str().is_empty() {
                proof {
                    lemma_texts_push(done@, open);
                }
                done.push(open);
                open = String::new();
            }
        } else {
            let ghost was = open@;
            open.push(c);
            proof {
                if was.len() == 0 {
                    assert(open@ =~= seq![c]);
                    assert(text::texts(done@).push(open@) =~= before.push(seq![c]));
                } else {
                    assert(text::texts(done@).push(open@) =~= before.update(
                        before.len() - 1,
                        before.last().push(c),
                    ));
                }
            }
        }
        i = i + 1;
    }
    assert(s@.take(s@.len() as int) == s@);
    if !open.as_str().is_empty() {
        proof {
            lemma_texts_push(done@, open);
        }
        done.push(open);
    }
    done
}

/// The pieces one after the other, with `between` between each two.
pub fn join(pieces: &Vec<String>, between: &str) -> (r: String)
    ensures
        r@ == join_of(text::texts(pieces@), between@),
{
    let mut r = String::new();
    let mut i: usize = 0;
    let ghost all = text::texts(pieces@);
    assert(r@ == join_of(all.take(0), between@));
    while i < pieces.len()
        invariant
            all == text::texts(pieces@),
            i <= pieces@.len(),
            r@ == join_of(all.take(i as int), between@),
        decreases pieces@.len() - i,
    {
        proof {
            assert(all.take(i + 1).drop_last() == all.take(i as int));
            assert(all.take(i + 1).last() == pieces@[i as int]@);
        }
        if i > 0 {
            r.append(between);
        }
        r.append(pieces[i].as_str());
        assert(r@ =~= join_of(all.take(i + 1), between@));
        i = i + 1;
    }
    assert(all.take(pieces@.len() as int) == all);
    r
}

/// `s` with each character `from` replaced by the text `to`.
pub fn replace_char(s: &str, from: char, to: &str) -> (r: String)
    ensures
        r@ == replace_char_of(s@, from, to@),
{
    let mut r = String::new();
    for c in it: s.chars()
        invariant
            it.seq() == s@,
            r@ == replace_char_of(s@.take(it.index()), from, to@),
    {
        proof {
            let next = s@.take(it.index() + 1);
            assert(next.drop_last() == s@.take(it.index()));
            assert(next.last() == c);
        }
        if c == from {
            r.append(to);
        } else {
            let ghost was = r@;
            r.push(c);
            assert(r@ =~= was + seq![c]);
        }
    }
    assert(s@.take(s@.len() as int) == s@);
    r
}

/// `s` with `part` replaced by `to`, from the left.
pub fn replace(s: &str, part: &str, to: &str) -> (r: String)
    ensures
        r@ == replace_of(s@, part@, to@),
{
    if part.is_empty() {
        return s.to_string();
    }
    let v = text::chars_of(s);
    let p = text::chars_of(part);
    let step: usize = p.len();
    let len: usize = v.len();
    let mut r = String::new();
    let mut from: usize = 0;
    assert(s@.skip(0) == s@);
    assert(replace_of(s@, part@, to@) =~= r@ + replace_of(s@.skip(0), part@, to@));
    loop
        invariant
            v@ == s@,
            p@ == part@,
            step == p@.len(),
            len == v@.len(),
            step > 0,
            from <= v@.len(),
            replace_of(s@, part@, to@) == r@ + replace_of(s@.skip(from as int), part@, to@),
        decreases v@.len() - from,
    {
        let ghost rest = s@.skip(from as int);
        proof {
            lemma_find_in_tail(s@, part@, from as int);
            text::lemma_find_from(rest, part@, 0);
            text::lemma_find_from(s@, part@, from as int);
        }
        match text::position_from(&v, &p, from) {
            Some(at) => {
                let piece = text::text_between(&v, from, at);
                proof {
                    let k = at - from;
                    assert(text::find_of(rest, part@) == Some(k));
                    assert(piece@ == rest.take(k));
                    assert(rest.skip(k + part@.len()) == s@.skip(at + step));
                    assert(replace_of(s@, part@, to@) =~= r@ + piece@ + to@ + replace_of(
                        s@.skip(at + step),
                        part@,
                        to@,
                    ));
                }
                r.append(piece.as_str());
                r.append(to);
                from = at + step;
            },
            None => {
                let piece = text::text_between(&v, from, v.len());
                proof {
                    assert(piece@ == rest);
                }
                r.append(piece.as_str());
                return r;
            },
        }
    }
}

/// Looking for `part` in what follows position `from` is looking for it from
/// there on.
pub proof fn lemma_find_in_tail(s: Seq<char>, part: Seq<char>, from: int)
    requires
        0 <= from <= s.len(),
    ensures
        match text::find_from(s, part, from) {
            Some(at) => text::find_of(s.skip(from), part) == Some(at - from),
            None => text::find_of(s.skip(from), part) is None,
        },
{
    lemma_find_in_tail_at(s, part, from, 0);
}

proof fn lemma_find_in_tail_at(s: Seq<char>, part: Seq<char>, from: int, k: int)
    requires
        0 <= from <= s.len(),
        0 <= k,
    ensures
        match text::find_from(s, part, from + k) {
            Some(at) => text::find_from(s.skip(from), part, k) == Some(at - from),
            None => text::find_from(s.skip(from), part, k) is None,
        },
    decreases s.len() - from - k + 1,
{
    let t = s.skip(from);
    if from + k + part.len() <= s.len() {
        assert(t.subrange(k, k + part.len()) == s.subrange(from + k, from + k + part.len()));
        if !text::occurs_at(s, part, from + k) {
            lemma_find_in_tail_at(s, part, from, k + 1);
        }
    }
}

/// `s` without its white space.
pub fn squeeze(s: &str) -> (r: String)
    ensures
        r@ == squeeze_of(s@),
{
    let mut r = String::new();
    for c in it: s.chars()
        invariant
            it.seq() == s@,
            r@ == squeeze_of(s@.take(it.index())),
    {
        proof {
            let next = s@.take(it.index() + 1);
            assert(next.drop_last() == s@.take(it.index()));
            assert(next.last() == c);
        }
        if !text::space(c) {
            r.push(c);
        }
    }
    assert(s@.take(s@.len() as int) == s@);
    r
}

/// The part of `s` before the last `cut`, and the part after it.
pub fn rsplit_once(s: &str, cut: char) -> (r: Option<(String, String)>)
    ensures
        match r {
            Some((before, after)) => rsplit_once_of(s@, cut) == Some((before@, after@)),
            None => rsplit_once_of(s@, cut) is None,
        },
{
    let v = text::chars_of(s);
    let mut i: usize = v.len();
    while i > 0
        invariant
            v@ == s@,
            i <= v@.len(),
            forall|k: int| i <= k < v@.len() ==> v@[k] != cut,
        decreases i,
    {
        if v[i - 1] == cut {
            let before = text::text_between(&v, 0, i - 1);
            let after = text::text_between(&v, i, v.len());
            proof {
                lemma_rsplit_once(s@, cut);
                let (b, a) = rsplit_once_of(s@, cut)->Some_0;
                assert(s@[i - 1] == cut);
                assert(b.len() == i - 1) by {
                    if b.len() < i - 1 {
                        assert(a[i - 1 - b.len() - 1] == s@[i - 1]);
                    }
                    if b.len() > i - 1 {
                        assert(s@[b.len() as int] == cut);
                    }
                }
                assert(before@ =~= b);
                assert(after@ =~= a);
            }
            return Some((before, after));
        }
        i = i - 1;
    }
    proof {
        lemma_rsplit_once(s@, cut);
        if rsplit_once_of(s@, cut) is Some {
            let (b, a) = rsplit_once_of(s@, cut)->Some_0;
            assert(s@[b.len() as int] == cut);
        }
    }
    None
}

/// `rsplit_once_of` cuts at the last `cut`.
pub proof fn lemma_rsplit_once(s: Seq<char>, cut: char)
    ensures
        match rsplit_once_of(s, cut) {
            Some((before, after)) => {
                &&& s =~= before + seq![cut] + after
                &&& forall|k: int| 0 <= k < after.len() ==> after[k] != cut
            },
            None => forall|k: int| 0 <= k < s.len() ==> s[k] != cut,
        },
    decreases s.len(),
{
    if s.len() > 0 && s.last() != cut {
        lemma_rsplit_once(s.drop_last(), cut);
        match rsplit_once_of(s.drop_last(), cut) {
            Some((before, after)) => {
                assert(s =~= s.drop_last().push(s.last()));
                assert(s =~= before + seq![cut] + after.push(s.last()));
            },
            None => {
                assert forall|k: int| 0 <= k < s.len() implies s[k] != cut by {
                    if k < s.len() - 1 {
                        assert(s.drop_last()[k] == s[k]);
                    }
                }
            },
        }
    }
}

/// `split_once_of` cuts at the first `cut`.
pub proof fn lemma_split_once(s: Seq<char>, cut: char)
    ensures
        match split_once_of(s, cut) {
            Some((before, after)) => {
                &&& s =~= before + seq![cut] + after
                &&& forall|k: int| 0 <= k < before.len() ==> before[k] != cut
            },
            None => forall|k: int| 0 <= k < s.len() ==> s[k] != cut,
        },
    decreases s.len(),
{
    if s.len() > 0 && s[0] != cut {
        lemma_split_once(s.drop_first(), cut);
        match split_once_of(s.drop_first(), cut) {
            Some((before, after)) => {
                assert(s =~= seq![s[0]] + s.drop_first());
                assert(s =~= (seq![s[0]] + before) + seq![cut] + after);
            },
            None => {
                assert forall|k: int| 0 <= k < s.len() implies s[k] != cut by {
                    if k > 0 {
                        assert(s.drop_first()[k - 1] == s[k]);
                    }
                }
            },
        }
    }
}

/// The part of `s` before the first `cut`, and the part after it.
pub fn split_once(s: &str, cut: char) -> (r: Option<(String, String)>)
    ensures
        match r {
            Some((before, after)) => split_once_of(s@, cut) == Some((before@, after@)),
            None => split_once_of(s@, cut) is None,
        },
{
    let v = text::chars_of(s);
    let mut i: usize = 0;
    while i < v.len()
        invariant
            v@ == s@,
            i <= v@.len(),
            forall|k: int| 0 <= k < i ==> v@[k] != cut,
        decreases v@.len() - i,
    {
        if v[i] == cut {
            let before = text::text_between(&v, 0, i);
            let after = text::text_between(&v, i + 1, v.len());
            proof {
                lemma_split_once(s@, cut);
                let (b, a) = split_once_of(s@, cut)->Some_0;
                assert(s@[i as int] == cut);
                assert(b.len() == i) by {
                    if b.len() > i {
                        assert(b[i as int] == s@[i as int]);
                    }
                    if b.len() < i {
                        assert(s@[b.len() as int] == cut);
                    }
                }
                assert(before@ =~= b);
                assert(after@ =~= a);
            }
            return Some((before, after));
        }
        i = i + 1;
    }
    proof {
        lemma_split_once(s@, cut);
        if split_once_of(s@, cut) is Some {
            let (b, a) = split_once_of(s@, cut)->Some_0;
            assert(s@[b.len() as int] == cut);
        }
    }
    None
}

// ---------------------------------------------------------------------------
// Laws
// ---------------------------------------------------------------------------

/// Taking out white space leaves all other characters in their order, and nothing is
/// left where there is nothing else.
pub proof fn law_squeezing_takes_out_white_space(s: Seq<char>)
    ensures
        squeeze_of(s) == s.filter(|c: char| !text::is_space(c)),
        squeeze_of(s).len() == 0 <==> text::blank(s),
    decreases s.len(),
{
    reveal(Seq::filter);
    if s.len() > 0 {
        let front = s.drop_last();
        law_squeezing_takes_out_white_space(front);
        if text::blank(front) && text::is_space(s.last()) {
            assert forall|i: int| 0 <= i < s.len() implies text::is_space(#[trigger] s[i]) by {
                if i < front.len() {
                    assert(text::is_space(front[i]));
                }
            }
        }
        if text::blank(s) {
            assert forall|i: int| 0 <= i < front.len() implies text::is_space(
                #[trigger] front[i],
            ) by {
                assert(text::is_space(s[i]));
            }
            assert(text::is_space(s[s.len() - 1]));
        }
    }
}

/// Each piece stands in what is joined.
pub proof fn lemma_pieces_are_parts(pieces: Seq<Seq<char>>, between: Seq<char>, i: int)
    requires
        0 <= i < pieces.len(),
    ensures
        text::has_part(join_of(pieces, between), pieces[i]),
    decreases pieces.len(),
{
    let whole = join_of(pieces, between);
    if pieces.len() == 1 {
        assert(whole.subrange(0, whole.len() as int) =~= pieces[0]);
        assert(text::occurs_at(whole, pieces[0], 0));
    } else {
        let front = pieces.drop_last();
        let before = join_of(front, between);
        if i < front.len() {
            lemma_pieces_are_parts(front, between, i);
            assert(whole.subrange(0, before.len() as int) =~= before);
            assert(text::occurs_at(whole, before, 0));
            text::lemma_part_of_part(whole, before, pieces[i]);
        } else {
            let at = whole.len() - pieces[i].len();
            assert(whole.subrange(at, at + pieces[i].len()) =~= pieces[i]);
            assert(text::occurs_at(whole, pieces[i], at));
        }
    }
}

/// The pieces of a text, joined again, make the text, and none of them holds the character
/// that it was cut at.
pub proof fn law_split_text_joins_again(s: Seq<char>, cut: char)
    ensures
        join_of(split_of(s, cut), seq![cut]) == s,
        split_of(s, cut).len() > 0,
        forall|i: int|
            0 <= i < split_of(s, cut).len() ==> !(#[trigger] split_of(s, cut)[i]).contains(cut),
    decreases s.len(),
{
    let pieces = split_of(s, cut);
    let between = seq![cut];
    if s.len() == 0 {
        assert(join_of(pieces, between) =~= s);
    } else {
        let front = s.drop_last();
        let before = split_of(front, cut);
        law_split_text_joins_again(front, cut);
        if s.last() == cut {
            assert(pieces.drop_last() =~= before);
            assert(join_of(pieces, between) =~= s);
        } else {
            let n = before.len() - 1;
            assert(pieces.drop_last() =~= before.drop_last());
            if before.len() == 1 {
                assert(join_of(pieces, between) =~= s);
            } else {
                assert(join_of(pieces, between) =~= join_of(before, between).push(s.last()));
                assert(join_of(pieces, between) =~= s);
            }
            assert forall|i: int| 0 <= i < pieces.len() implies !(#[trigger] pieces[i]).contains(
                cut,
            ) by {
                if i == n {
                    assert(!before[n].contains(cut));
                    if pieces[n].contains(cut) {
                        let k = choose|k: int|
                            0 <= k < pieces[n].len() && pieces[n][k] == cut;
                        if k < before[n].len() {
                            assert(before[n][k] == cut);
                        }
                    }
                } else {
                    assert(pieces[i] == before[i]);
                }
            }
        }
    }
}

/// What is cut at one place more has the pieces of both sides.
pub proof fn lemma_split_at(a: Seq<char>, cut: char, b: Seq<char>)
    ensures
        split_of(a + seq![cut] + b, cut) == split_of(a, cut) + split_of(b, cut),
    decreases b.len(),
{
    let whole = a + seq![cut] + b;
    if b.len() == 0 {
        assert(whole.drop_last() =~= a);
        assert(whole.last() == cut);
        assert(split_of(a, cut).push(Seq::<char>::empty()) =~= split_of(a, cut) + split_of(b, cut));
    } else {
        let front = b.drop_last();
        assert(whole.drop_last() =~= a + seq![cut] + front);
        assert(whole.last() == b.last());
        lemma_split_at(a, cut, front);
        lemma_split_nonempty(front, cut);
        let left = split_of(a, cut);
        let right = split_of(front, cut);
        if b.last() == cut {
            assert((left + right).push(Seq::<char>::empty()) =~= left + right.push(
                Seq::<char>::empty(),
            ));
        } else {
            let joint = left + right;
            assert(joint.last() == right.last());
            assert(joint.update(joint.len() - 1, joint.last().push(b.last())) =~= left
                + right.update(right.len() - 1, right.last().push(b.last())));
        }
    }
}

/// What is cut nowhere is one piece.
pub proof fn lemma_uncut(s: Seq<char>, cut: char)
    requires
        !s.contains(cut),
    ensures
        split_of(s, cut) == seq![s],
    decreases s.len(),
{
    if s.len() == 0 {
        assert(s =~= Seq::<char>::empty());
    } else {
        let front = s.drop_last();
        assert(front.push(s.last()) =~= s);
        assert forall|i: int| 0 <= i < front.len() implies front[i] != cut by {
            assert(s[i] == front[i]);
        }
        assert(!front.contains(cut));
        lemma_uncut(front, cut);
        assert(s[s.len() - 1] == s.last());
        assert(split_of(s, cut) =~= seq![s]);
    }
}

/// A line that ends with a line feed comes first, without a carriage return at its end,
/// and the lines of the rest follow; what no line feed ends is a line of its own, where it
/// is not empty.
pub proof fn law_lines_end_with_line_feeds(line: Seq<char>, rest: Seq<char>)
    requires
        !line.contains('\n'),
    ensures
        line.len() == 0 || line.last() != '\r' ==> lines_of(line + seq!['\n'] + rest) == seq![line]
            + lines_of(rest),
        lines_of(line + seq!['\r', '\n'] + rest) == seq![line] + lines_of(rest),
        line.len() > 0 ==> lines_of(line) == seq![line],
        lines_of(Seq::<char>::empty()).len() == 0,
{
    lemma_uncut(line, '\n');
    lemma_split_at(line, '\n', rest);
    lemma_split_nonempty(rest, '\n');
    let whole = line + seq!['\n'] + rest;
    let pieces = split_of(rest, '\n');
    let map = |line: Seq<char>| without_cr(line);
    assert((seq![line] + pieces).drop_last() =~= seq![line] + pieces.drop_last());
    assert((seq![line] + pieces).last() == pieces.last());
    assert((seq![line] + pieces.drop_last()).map_values(map) =~= seq![without_cr(line)]
        + pieces.drop_last().map_values(map));
    if line.len() == 0 || line.last() != '\r' {
        assert(lines_of(whole) =~= seq![line] + lines_of(rest));
    }
    let longer = line.push('\r');
    assert(!longer.contains('\n')) by {
        if longer.contains('\n') {
            let k = choose|k: int| 0 <= k < longer.len() && longer[k] == '\n';
            if k < line.len() {
                assert(line[k] == '\n');
            }
        }
    }
    lemma_uncut(longer, '\n');
    lemma_split_at(longer, '\n', rest);
    assert(line + seq!['\r', '\n'] + rest =~= longer + seq!['\n'] + rest);
    assert((seq![longer] + pieces).drop_last() =~= seq![longer] + pieces.drop_last());
    assert((seq![longer] + pieces).last() == pieces.last());
    assert((seq![longer] + pieces.drop_last()).map_values(map) =~= seq![without_cr(longer)]
        + pieces.drop_last().map_values(map));
    assert(without_cr(longer) =~= line);
    assert(lines_of(longer + seq!['\n'] + rest) =~= seq![line] + lines_of(rest));
    if line.len() > 0 {
        assert(seq![line].drop_last().map_values(map) =~= Seq::<Seq<char>>::empty());
        assert(lines_of(line) =~= seq![line]);
    }
    let none = Seq::<char>::empty();
    assert(split_of(none, '\n') =~= seq![none]);
    assert(lines_of(none) =~= Seq::<Seq<char>>::empty());
}

/// White space ends a word: the words before it come first, and then those behind it. A
/// text without white space is one word, and nothing holds none.
pub proof fn law_words_end_with_white_space(a: Seq<char>, gap: char, b: Seq<char>)
    requires
        text::is_space(gap),
    ensures
        words_of(a + seq![gap] + b) == words_of(a) + words_of(b),
        a.len() > 0 && (forall|i: int| 0 <= i < a.len() ==> !text::is_space(#[trigger] a[i]))
            ==> words_of(a) == seq![a],
        a.len() == 0 ==> words_of(a).len() == 0,
    decreases b.len(),
{
    let whole = a + seq![gap] + b;
    if b.len() == 0 {
        assert(whole.drop_last() =~= a);
        assert(whole.last() == gap);
        assert(words_of(a) + words_of(b) =~= words_of(a));
    } else {
        let front = b.drop_last();
        assert(whole.drop_last() =~= a + seq![gap] + front);
        assert(whole.last() == b.last());
        law_words_end_with_white_space(a, gap, front);
        let left = words_of(a);
        let right = words_of(front);
        let c = b.last();
        if !text::is_space(c) {
            if b.len() == 1 {
                assert(whole[whole.len() - 2] == gap);
                assert((left + right).push(seq![c]) =~= left + right.push(seq![c]));
            } else {
                assert(whole[whole.len() - 2] == b[b.len() - 2]);
                if text::is_space(b[b.len() - 2]) {
                    assert((left + right).push(seq![c]) =~= left + right.push(seq![c]));
                } else {
                    assert(front.last() == b[b.len() - 2]);
                    lemma_word_open(front);
                    let joint = left + right;
                    assert(joint.last() == right.last());
                    assert(joint.update(joint.len() - 1, joint.last().push(c)) =~= left
                        + right.update(right.len() - 1, right.last().push(c)));
                }
            }
        }
    }
    if a.len() > 0 && (forall|i: int| 0 <= i < a.len() ==> !text::is_space(#[trigger] a[i])) {
        lemma_one_word(a);
    }
}

proof fn lemma_word_open(s: Seq<char>)
    requires
        s.len() > 0,
        !text::is_space(s.last()),
    ensures
        words_of(s).len() > 0,
    decreases s.len(),
{
    if s.len() > 1 && !text::is_space(s[s.len() - 2]) {
        assert(s.drop_last().last() == s[s.len() - 2]);
        lemma_word_open(s.drop_last());
    }
}

proof fn lemma_one_word(s: Seq<char>)
    requires
        s.len() > 0,
        forall|i: int| 0 <= i < s.len() ==> !text::is_space(#[trigger] s[i]),
    ensures
        words_of(s) == seq![s],
    decreases s.len(),
{
    assert(s[s.len() - 1] == s.last());
    let front = s.drop_last();
    assert(front.push(s.last()) =~= s);
    if s.len() == 1 {
        assert(seq![s.last()] =~= s);
        assert(words_of(front) =~= Seq::<Seq<char>>::empty());
        assert(words_of(s) =~= seq![s]);
    } else {
        assert forall|i: int| 0 <= i < front.len() implies !text::is_space(#[trigger] front[i]) by {
            assert(s[i] == front[i]);
        }
        lemma_one_word(front);
        assert(!text::is_space(s[s.len() - 2]));
        assert(words_of(s) =~= seq![s]);
    }
}

/// Replacing a character by another one changes that character, everywhere, and no other.
pub proof fn law_one_character_is_replaced(s: Seq<char>, from: char, to: char)
    ensures
        replace_char_of(s, from, seq![to]).len() == s.len(),
        forall|i: int|
            0 <= i < s.len() ==> #[trigger] replace_char_of(s, from, seq![to])[i] == (if s[i]
                == from {
                to
            } else {
                s[i]
            }),
    decreases s.len(),
{
    if s.len() > 0 {
        law_one_character_is_replaced(s.drop_last(), from, to);
    }
}

/// A text is cut once at the first `cut` in it, which stands neither in the part before
/// nor is needed again in the part behind.
pub proof fn law_text_is_cut_once(before: Seq<char>, cut: char, after: Seq<char>)
    requires
        !before.contains(cut),
    ensures
        split_once_of(before + seq![cut] + after, cut) == Some((before, after)),
        split_once_of(before, cut) is None,
    decreases before.len(),
{
    let whole = before + seq![cut] + after;
    if before.len() == 0 {
        assert(whole.drop_first() =~= after);
        assert(before =~= Seq::<char>::empty());
    } else {
        let rest = before.drop_first();
        assert(before[0] != cut) by {
            assert(before.contains(before[0]));
        }
        assert forall|i: int| 0 <= i < rest.len() implies rest[i] != cut by {
            assert(before.contains(before[i + 1]));
        }
        law_text_is_cut_once(rest, cut, after);
        assert(whole.drop_first() =~= rest + seq![cut] + after);
        assert(seq![before[0]] + rest =~= before);
    }
}

/// What a text is cut into is the text again, with `cut` between the two parts.
pub proof fn law_cut_text_joins_again(s: Seq<char>, cut: char)
    ensures
        match split_once_of(s, cut) {
            Some((before, after)) => s == before + seq![cut] + after && !before.contains(cut),
            None => !s.contains(cut),
        },
    decreases s.len(),
{
    if s.len() > 0 {
        let rest = s.drop_first();
        if s[0] == cut {
            assert(s =~= Seq::<char>::empty() + seq![cut] + rest);
        } else {
            law_cut_text_joins_again(rest, cut);
            match split_once_of(rest, cut) {
                Some((before, after)) => {
                    let longer = seq![s[0]] + before;
                    assert(rest == before + seq![cut] + after);
                    assert(s =~= seq![s[0]] + rest);
                    assert(seq![s[0]] + (before + seq![cut] + after) =~= longer + seq![cut] + after);
                    assert forall|i: int| 0 <= i < longer.len() implies longer[i] != cut by {
                        if i > 0 {
                            assert(before.contains(before[i - 1]));
                        }
                    }
                },
                None => {
                    assert forall|i: int| 0 <= i < s.len() implies s[i] != cut by {
                        if i > 0 {
                            assert(rest.contains(rest[i - 1]));
                        }
                    }
                },
            }
        }
    }
}

/// A text is cut at the last `cut` in it.
pub proof fn law_text_is_cut_at_the_last(before: Seq<char>, cut: char, after: Seq<char>)
    requires
        !after.contains(cut),
    ensures
        rsplit_once_of(before + seq![cut] + after, cut) == Some((before, after)),
        rsplit_once_of(after, cut) is None,
    decreases after.len(),
{
    let whole = before + seq![cut] + after;
    if after.len() == 0 {
        assert(whole.drop_last() =~= before);
        assert(after =~= Seq::<char>::empty());
    } else {
        let front = after.drop_last();
        assert(after.last() != cut) by {
            assert(after.contains(after[after.len() - 1]));
        }
        assert forall|i: int| 0 <= i < front.len() implies front[i] != cut by {
            assert(after.contains(after[i]));
        }
        law_text_is_cut_at_the_last(before, cut, front);
        assert(whole.drop_last() =~= before + seq![cut] + front);
        assert(whole.last() == after.last());
        assert(front.push(after.last()) =~= after);
    }
}

/// The first place where a part stands is replaced, and then what is behind it is looked
/// through in the same way. A text in which the part stands nowhere does not change.
pub proof fn law_parts_are_replaced_from_the_left(
    before: Seq<char>,
    part: Seq<char>,
    after: Seq<char>,
    to: Seq<char>,
)
    requires
        part.len() > 0,
        forall|at: int|
            0 <= at < before.len() ==> !text::occurs_at(before + part + after, part, at),
    ensures
        replace_of(before + part + after, part, to) == before + to + replace_of(after, part, to),
        !text::has_part(after, part) ==> replace_of(after, part, to) == after,
{
    let s = before + part + after;
    let at = before.len() as int;
    text::lemma_find_from(s, part, 0);
    assert(s.subrange(at, at + part.len()) =~= part);
    assert(text::occurs_at(s, part, at));
    assert(text::find_of(s, part) == Some(at));
    assert(s.take(at) =~= before);
    assert(s.skip(at + part.len()) =~= after);
    text::lemma_has_part_iff_found(after, part);
}

} // verus!
