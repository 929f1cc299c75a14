//! Strings as sequences of characters: building, searching and replacing.
use vstd::prelude::*;

use crate::unicode::{is_white_space, white_space};

verus! {

/// `String::push` adds the character at the end.
pub assume_specification[ String::push ](s: &mut String, c: char)
    ensures
        final(s)@ == old(s)@.push(c),
;

// ---------------------------------------------------------------------------
// Pieces
// ---------------------------------------------------------------------------

/// The characters of a string, one by one.
pub fn chars_of(s: &str) -> (chars: Vec<char>)
    ensures
        chars@ == s@,
{
    let mut chars: Vec<char> = Vec::new();
    for c in it: s.chars()
        invariant
            chars@ == it.seq().take(it.index()),
            it.seq() == s@,
    {
        chars.push(c);
    }
    chars
}

/// The string made of `chars[start..end]`.
pub fn string_from(chars: &[char], start: usize, end: usize) -> (s: String)
    requires
        start <= end <= chars@.len(),
    ensures
        s@ == chars@.subrange(start as int, end as int),
{
    let mut s = String::new();
    let mut i: usize = start;
    while i < end
        invariant
            start <= i <= end <= chars@.len(),
            s@ == chars@.subrange(start as int, i as int),
        decreases end - i,
    {
        s.push(chars[i]);
        i += 1;
    }
    s
}

/// The parts one after another.
pub open spec fn concat(parts: Seq<Seq<char>>) -> Seq<char>
    decreases parts.len(),
{
    if parts.len() == 0 {
        Seq::empty()
    } else {
        concat(parts.drop_last()) + parts.last()
    }
}

/// The parts one after another, with `sep` between neighbours.
pub open spec fn join(parts: Seq<Seq<char>>, sep: Seq<char>) -> Seq<char>
    decreases parts.len(),
{
    if parts.len() == 0 {
        Seq::empty()
    } else if parts.len() == 1 {
        parts[0]
    } else {
        join(parts.drop_last(), sep) + sep + parts.last()
    }
}

/// The texts of a list of strings.
pub open spec fn texts(parts: Seq<String>) -> Seq<Seq<char>> {
    parts.map_values(|p: String| p@)
}

/// Joins `parts` with `sep` between neighbours.
pub fn join_strings(parts: &Vec<String>, sep: &str) -> (s: String)
    ensures
        s@ == join(texts(parts@), sep@),
{
    let mut s = String::new();
    let mut i: usize = 0;
    assert(s@ =~= join(texts(parts@).take(0), sep@));
    while i < parts.len()
        invariant
            i <= parts@.len(),
            s@ == join(texts(parts@).take(i as int), sep@),
        decreases parts@.len() - i,
    {
        assert(texts(parts@).take(i + 1).drop_last() =~= texts(parts@).take(i as int));
        if i > 0 {
            s.append(sep);
        }
        s.append(parts[i].as_str());
        assert(i == 0 ==> s@ =~= parts@[0]@);
        i += 1;
    }
    assert(texts(parts@).take(i as int) =~= texts(parts@));
    s
}

/// Whether two strings hold the same characters.
pub fn same_text(a: &str, b: &str) -> (r: bool)
    ensures
        r == (a@ == b@),
{
    let x = chars_of(a);
    let y = chars_of(b);
    if x.len() != y.len() {
        return false;
    }
    assert(x@.subrange(0, y@.len() as int) =~= x@);
    matches_at(&x, &y, 0)
}

// ---------------------------------------------------------------------------
// Searching
// ---------------------------------------------------------------------------

/// Whether `pat` stands in `s` at position `i`.
pub open spec fn occurs_at(s: Seq<char>, pat: Seq<char>, i: int) -> bool {
    &&& 0 <= i
    &&& i + pat.len() <= s.len()
    &&& s.subrange(i, i + pat.len()) == pat
}

/// Whether `pat` stands somewhere in `s`.
pub open spec fn occurs(s: Seq<char>, pat: Seq<char>) -> bool {
    exists|i: int| occurs_at(s, pat, i)
}

/// Whether `s` begins with `pat`.
pub open spec fn begins_with(s: Seq<char>, pat: Seq<char>) -> bool {
    occurs_at(s, pat, 0)
}

/// Whether `s` ends in `pat`.
pub open spec fn finishes_with(s: Seq<char>, pat: Seq<char>) -> bool {
    occurs_at(s, pat, s.len() - pat.len())
}

/// The position of the first `c` in `s`; the length of `s` where there is none.
pub open spec fn first_index(s: Seq<char>, c: char) -> int
    decreases s.len(),
{
    if s.len() == 0 || s[0] == c {
        0
    } else {
        1 + first_index(s.drop_first(), c)
    }
}

/// The position of the last `c` in `s`.
pub open spec fn last_index(s: Seq<char>, c: char) -> Option<int>
    decreases s.len(),
{
    if s.len() == 0 {
        None
    } else if s.last() == c {
        Some(s.len() - 1)
    } else {
        last_index(s.drop_last(), c)
    }
}

/// Tells whether `pat` stands in `s` at position `i`.
pub fn matches_at(s: &[char], pat: &[char], i: usize) -> (r: bool)
    ensures
        r == occurs_at(s@, pat@, i as int),
{
    let total = s.len();
    if i > total || total - i < pat.len() {
        return false;
    }
    let mut k: usize = 0;
    while k < pat.len()
        invariant
            k <= pat@.len(),
            i + pat@.len() <= s@.len(),
            total == s@.len(),
            forall|j: int| 0 <= j < k ==> s@[i + j] == pat@[j],
        decreases pat@.len() - k,
    {
        if s[i + k] != pat[k] {
            assert(s@.subrange(i as int, i + pat@.len())[k as int] != pat@[k as int]);
            return false;
        }
        k += 1;
    }
    assert(s@.subrange(i as int, i + pat@.len()) =~= pat@);
    true
}

/// Tells whether `s` holds `pat`.
pub fn contains(s: &str, pat: &str) -> (r: bool)
    ensures
        r == occurs(s@, pat@),
{
    let chars = chars_of(s);
    let wanted = chars_of(pat);
    let mut i: usize = 0;
    while i < chars.len()
        invariant
            i <= chars@.len(),
            chars@ == s@,
            wanted@ == pat@,
            forall|j: int| 0 <= j < i ==> !occurs_at(s@, pat@, j),
        decreases chars@.len() - i,
    {
        if matches_at(&chars, &wanted, i) {
            return true;
        }
        i += 1;
    }
    matches_at(&chars, &wanted, i)
}

/// Tells whether `s` begins with `pat`.
pub fn starts_with(s: &str, pat: &str) -> (r: bool)
    ensures
        r == begins_with(s@, pat@),
{
    matches_at(&chars_of(s), &chars_of(pat), 0)
}

/// Tells whether `s` ends in `pat`.
pub fn ends_with(s: &str, pat: &str) -> (r: bool)
    ensures
        r == finishes_with(s@, pat@),
{
    let chars = chars_of(s);
    let wanted = chars_of(pat);
    if wanted.len() > chars.len() {
        return false;
    }
    matches_at(&chars, &wanted, chars.len() - wanted.len())
}

/// Finds the last `c`.
pub fn rfind(s: &[char], c: char) -> (r: Option<usize>)
    ensures
        match r {
            Some(i) => last_index(s@, c) == Some(i as int),
            None => last_index(s@, c) is None,
        },
{
    let mut end: usize = s.len();
    assert(s@.take(end as int) =~= s@);
    while end > 0
        invariant
            end <= s@.len(),
            last_index(s@.take(end as int), c) == last_index(s@, c),
        decreases end,
    {
        assert(s@.take(end as int).drop_last() =~= s@.take(end - 1));
        if s[end - 1] == c {
            return Some(end - 1);
        }
        end -= 1;
    }
    None
}

/// Finds the first `c`; gives the length of `s` where there is none.
pub fn find(s: &[char], c: char) -> (r: usize)
    ensures
        r == first_index(s@, c),
        r <= s@.len(),
{
    let mut i: usize = 0;
    assert(s@.skip(0) =~= s@);
    while i < s.len() && s[i] != c
        invariant
            i <= s@.len(),
            first_index(s@, c) == i + first_index(s@.skip(i as int), c),
        decreases s@.len() - i,
    {
        assert(s@.skip(i as int).drop_first() =~= s@.skip(i + 1));
        i += 1;
    }
    i
}

/// Whether nothing but white space stands in `s`.
pub open spec fn blank(s: Seq<char>) -> bool {
    forall|i: int| 0 <= i < s.len() ==> white_space(#[trigger] s[i])
}

/// Tells whether nothing is left of `s` once the white space at both ends is taken away.
pub fn is_blank(s: &str) -> (r: bool)
    ensures
        r == blank(s@),
{
    let chars = chars_of(s);
    let mut i: usize = 0;
    while i < chars.len()
        invariant
            i <= chars@.len(),
            chars@ == s@,
            forall|j: int| 0 <= j < i ==> white_space(#[trigger] s@[j]),
        decreases chars@.len() - i,
    {
        if !is_white_space(chars[i]) {
            return false;
        }
        i += 1;
    }
    true
}

/// Where the last `c` stands, and that none stands behind it.
pub proof fn last_index_is_last(s: Seq<char>, c: char)
    ensures
        match last_index(s, c) {
            Some(i) => 0 <= i < s.len() && s[i] == c && forall|j: int|
                i < j < s.len() ==> s[j] != c,
            None => forall|j: int| 0 <= j < s.len() ==> s[j] != c,
        },
    decreases s.len(),
{
    if s.len() > 0 && s.last() != c {
        last_index_is_last(s.drop_last(), c);
        assert forall|j: int| 0 <= j < s.len() - 1 implies s[j] == s.drop_last()[j] by {}
    }
}

/// Where the first `c` stands, and that none stands before it.
pub proof fn first_index_is_first(s: Seq<char>, c: char)
    ensures
        0 <= first_index(s, c) <= s.len(),
        first_index(s, c) < s.len() ==> s[first_index(s, c)] == c,
        forall|j: int| 0 <= j < first_index(s, c) ==> s[j] != c,
    decreases s.len(),
{
    if s.len() > 0 && s[0] != c {
        first_index_is_first(s.drop_first(), c);
        assert forall|j: int| 0 <= j < first_index(s, c) implies s[j] != c by {
            if j > 0 {
                assert(s.drop_first()[j - 1] == s[j]);
            }
        }
    }
}

// ---------------------------------------------------------------------------
// Replacing
// ---------------------------------------------------------------------------

/// `s` with each `pat`, taken from the left without overlap, replaced by `with`.
pub open spec fn replaced(s: Seq<char>, pat: Seq<char>, with: Seq<char>) -> Seq<char>
    decreases s.len(),
{
    if pat.len() == 0 || s.len() == 0 {
        s
    } else if begins_with(s, pat) {
        with + replaced(s.skip(pat.len() as int), pat, with)
    } else {
        seq![s[0]] + replaced(s.drop_first(), pat, with)
    }
}

/// `s` with each character `c` replaced by `with`.
pub open spec fn char_replaced(s: Seq<char>, c: char, with: Seq<char>) -> Seq<char>
    decreases s.len(),
{
    if s.len() == 0 {
        s
    } else {
        char_replaced(s.drop_last(), c, with) + (if s.last() == c {
            with
        } else {
            seq![s.last()]
        })
    }
}

/// Replaces each `pat` in `s` by `with`.
pub fn replace_all(s: &str, pat: &str, with: &str) -> (r: String)
    requires
        pat@.len() > 0,
    ensures
        r@ == replaced(s@, pat@, with@),
{
    let chars = chars_of(s);
    let wanted = chars_of(pat);
    let mut out = String::new();
    let mut i: usize = 0;
    assert(s@.skip(0) =~= s@);
    assert(out@ + replaced(s@, pat@, with@) =~= replaced(s@, pat@, with@));
    while i < chars.len()
        invariant
            i <= chars@.len(),
            chars@ == s@,
            wanted@ == pat@,
            pat@.len() > 0,
            replaced(s@, pat@, with@) == out@ + replaced(s@.skip(i as int), pat@, with@),
        decreases chars@.len() - i,
    {
        let ghost rest = s@.skip(i as int);
        let ghost before = out@;
        assert(occurs_at(s@, pat@, i as int) <==> begins_with(rest, pat@)) by {
            if i + pat@.len() <= s@.len() {
                assert(s@.subrange(i as int, i + pat@.len()) =~= rest.subrange(
                    0,
                    pat@.len() as int,
                ));
            }
        }
        if matches_at(&chars, &wanted, i) {
            out.append(with);
            assert(rest.skip(pat@.len() as int) =~= s@.skip(i + pat@.len()));
            assert(before + (with@ + replaced(s@.skip(i + pat@.len()), pat@, with@)) =~= out@
                + replaced(s@.skip(i + pat@.len()), pat@, with@));
            i += wanted.len();
        } else {
            out.push(chars[i]);
            assert(rest.drop_first() =~= s@.skip(i + 1));
            assert(before + (seq![rest[0]] + replaced(s@.skip(i + 1), pat@, with@)) =~= out@
                + replaced(s@.skip(i + 1), pat@, with@));
            i += 1;
        }
    }
    assert(s@.skip(i as int) =~= Seq::<char>::empty());
    assert(out@ + Seq::<char>::empty() =~= out@);
    out
}

/// Replaces each character `c` in `s` by `with`.
pub fn replace_char(s: &str, c: char, with: &str) -> (r: String)
    ensures
        r@ == char_replaced(s@, c, with@),
{
    let chars = chars_of(s);
    let mut out = String::new();
    let mut i: usize = 0;
    assert(s@.take(0) =~= Seq::<char>::empty());
    while i < chars.len()
        invariant
            i <= chars@.len(),
            chars@ == s@,
            out@ == char_replaced(s@.take(i as int), c, with@),
        decreases chars@.len() - i,
    {
        assert(s@.take(i + 1).drop_last() =~= s@.take(i as int));
        if chars[i] == c {
            out.append(with);
        } else {
            out.push(chars[i]);
        }
        assert(out@ =~= char_replaced(s@.take(i + 1), c, with@));
        i += 1;
    }
    assert(s@.take(i as int) =~= s@);
    out
}

// ---------------------------------------------------------------------------
// Laws
// ---------------------------------------------------------------------------

/// Replacing passes over text in which the pattern does not begin.
pub proof fn nothing_begins_in_front(a: Seq<char>, b: Seq<char>, pat: Seq<char>, with: Seq<char>)
    requires
        pat.len() > 0,
        forall|i: int| 0 <= i < a.len() ==> !occurs_at(a + b, pat, i),
    ensures
        replaced(a + b, pat, with) == a + replaced(b, pat, with),
    decreases a.len(),
{
    if a.len() == 0 {
        assert(a + b =~= b);
        assert(a + replaced(b, pat, with) =~= replaced(b, pat, with));
    } else {
        let s = a + b;
        let rest = a.drop_first();
        assert(s.drop_first() =~= rest + b);
        assert(!occurs_at(s, pat, 0));
        assert forall|i: int| 0 <= i < rest.len() implies !occurs_at(rest + b, pat, i) by {
            assert(!occurs_at(s, pat, i + 1));
            if occurs_at(rest + b, pat, i) {
                assert(s.subrange(i + 1, i + 1 + pat.len()) =~= (rest + b).subrange(
                    i,
                    i + pat.len(),
                ));
            }
        }
        nothing_begins_in_front(rest, b, pat, with);
        assert(seq![s[0]] + (rest + replaced(b, pat, with)) =~= a + replaced(b, pat, with));
    }
}

/// The first place where the pattern stands is replaced, and the rest behind it likewise; a text
/// without the pattern stays as it is.
pub proof fn first_place_is_replaced(a: Seq<char>, b: Seq<char>, pat: Seq<char>, with: Seq<char>)
    requires
        pat.len() > 0,
    ensures
        (forall|i: int| 0 <= i < a.len() ==> !occurs_at(a + pat + b, pat, i)) ==> replaced(
            a + pat + b,
            pat,
            with,
        ) == a + with + replaced(b, pat, with),
        !occurs(a, pat) ==> replaced(a, pat, with) == a,
{
    if forall|i: int| 0 <= i < a.len() ==> !occurs_at(a + pat + b, pat, i) {
        let tail = pat + b;
        assert(a + pat + b =~= a + tail);
        nothing_begins_in_front(a, tail, pat, with);
        assert(tail.subrange(0, pat.len() as int) =~= pat);
        assert(tail.skip(pat.len() as int) =~= b);
        assert(a + (with + replaced(b, pat, with)) =~= a + with + replaced(b, pat, with));
    }
    if !occurs(a, pat) {
        let none = Seq::<char>::empty();
        assert(a + none =~= a);
        nothing_begins_in_front(a, none, pat, with);
        assert(a + replaced(none, pat, with) =~= a);
    }
}

/// Joining two lists of parts is joining each and setting the separator between, and one part
/// joined is itself; without a separator parts run on.
pub proof fn joined_lists_meet_at_a_separator(
    a: Seq<Seq<char>>,
    b: Seq<Seq<char>>,
    sep: Seq<char>,
    part: Seq<char>,
)
    ensures
        a.len() > 0 && b.len() > 0 ==> join(a + b, sep) == join(a, sep) + sep + join(b, sep),
        join(seq![part], sep) == part,
        join(Seq::empty(), sep) == Seq::<char>::empty(),
        concat(a + b) == concat(a) + concat(b),
        concat(seq![part]) == part,
    decreases b.len(),
{
    reveal_with_fuel(concat, 2);
    assert(seq![part].drop_last() =~= Seq::<Seq<char>>::empty());
    assert(concat(seq![part]) =~= part);
    if b.len() > 0 {
        let c = b.drop_last();
        let last = b.last();
        assert((a + b).drop_last() =~= a + c);
        joined_lists_meet_at_a_separator(a, c, sep, part);
        assert(concat(a + b) =~= concat(a) + concat(b));
        if a.len() > 0 {
            if c.len() == 0 {
                assert(a + c =~= a);
                assert(b =~= seq![last]);
                assert(join(a + b, sep) =~= join(a, sep) + sep + join(b, sep));
            } else {
                assert(join(a + b, sep) =~= join(a, sep) + sep + join(b, sep));
            }
        }
    } else {
        assert(a + b =~= a);
        assert(concat(a + b) =~= concat(a) + concat(b));
    }
}

/// A text is blank where every part of it is; one character is blank where it is white space.
pub proof fn blank_in_every_part(a: Seq<char>, b: Seq<char>, c: char)
    ensures
        blank(a + b) <==> blank(a) && blank(b),
        blank(seq![c]) <==> white_space(c),
        blank(Seq::empty()),
{
    if blank(a + b) {
        assert forall|i: int| 0 <= i < a.len() implies white_space(#[trigger] a[i]) by {
            assert((a + b)[i] == a[i]);
        }
        assert forall|i: int| 0 <= i < b.len() implies white_space(#[trigger] b[i]) by {
            assert((a + b)[a.len() + i] == b[i]);
        }
    }
    assert(seq![c][0] == c);
}

/// Texts that differ between the same two others differ as a whole.
pub proof fn middle_tells_apart(a: Seq<char>, x: Seq<char>, y: Seq<char>, b: Seq<char>)
    ensures
        x != y ==> a + x + b != a + y + b,
{
    if a + x + b == a + y + b {
        let s = a + x + b;
        assert(s.len() == a.len() + x.len() + b.len());
        assert((a + y + b).len() == a.len() + y.len() + b.len());
        assert(x =~= s.subrange(a.len() as int, (a.len() + x.len()) as int));
        assert(y =~= s.subrange(a.len() as int, (a.len() + x.len()) as int));
    }
}

/// A text stands in a longer one behind what comes before it.
pub proof fn middle_occurs(a: Seq<char>, b: Seq<char>, c: Seq<char>)
    ensures
        occurs_at(a + b + c, b, a.len() as int),
{
    assert((a + b + c).subrange(a.len() as int, (a.len() + b.len()) as int) =~= b);
}

/// What stands in a part stands in the whole.
pub proof fn occurs_through(outer: Seq<char>, mid: Seq<char>, inner: Seq<char>, a: int, b: int)
    requires
        occurs_at(outer, mid, a),
        occurs_at(mid, inner, b),
    ensures
        occurs_at(outer, inner, a + b),
{
    assert(outer.subrange(a + b, a + b + inner.len()) =~= outer.subrange(
        a,
        a + mid.len(),
    ).subrange(b, b + inner.len()));
}

/// A part ends before any later one begins.
pub proof fn parts_before(parts: Seq<Seq<char>>, j: int, k: int)
    requires
        0 <= j < k <= parts.len(),
    ensures
        concat(parts.take(j)).len() + parts[j].len() <= concat(parts.take(k)).len(),
    decreases k,
{
    assert(parts.take(k).drop_last() =~= parts.take(k - 1));
    if j < k - 1 {
        parts_before(parts, j, k - 1);
    }
}

/// Each part stands behind those before it.
pub proof fn part_occurs(parts: Seq<Seq<char>>, k: int)
    requires
        0 <= k < parts.len(),
    ensures
        occurs_at(concat(parts), parts[k], concat(parts.take(k)).len() as int),
    decreases parts.len(),
{
    let rest = parts.drop_last();
    if k == parts.len() - 1 {
        assert(parts.take(k) =~= rest);
        middle_occurs(concat(rest), parts[k], Seq::empty());
        assert(concat(rest) + parts[k] + Seq::<char>::empty() =~= concat(parts));
    } else {
        part_occurs(rest, k);
        assert(rest.take(k) =~= parts.take(k));
        middle_occurs(Seq::empty(), concat(rest), parts.last());
        assert(Seq::<char>::empty() + concat(rest) + parts.last() =~= concat(parts));
        occurs_through(concat(parts), concat(rest), parts[k], 0, concat(parts.take(k)).len() as int);
    }
}

/// What stands in a text still does when more follows.
pub proof fn first_of_joined_occurs(s: Seq<char>, t: Seq<char>, pat: Seq<char>)
    requires
        occurs(s, pat),
    ensures
        occurs(s + t, pat),
{
    let i = choose|i: int| occurs_at(s, pat, i);
    middle_occurs(Seq::empty(), s, t);
    assert(Seq::<char>::empty() + s + t =~= s + t);
    occurs_through(s + t, s, pat, 0, i);
}

/// What is joined at the end stands there.
pub proof fn last_of_joined_occurs(s: Seq<char>, t: Seq<char>)
    ensures
        occurs(s + t, t),
{
    middle_occurs(s, t, Seq::empty());
    assert(s + t + Seq::<char>::empty() =~= s + t);
}

} // verus!
