//! Text made safe for HTML.
use vstd::prelude::*;

use crate::text::{
    begins_with, char_replaced, chars_of, nothing_begins_in_front, occurs_at, replace_char, replaced,
};

verus! {

/// How one character is written in HTML text and in quoted attribute values.
pub open spec fn escaped_char(c: char) -> Seq<char> {
    if c == '&' {
        "&amp;"@
    } else if c == '<' {
        "&lt;"@
    } else if c == '>' {
        "&gt;"@
    } else if c == '"' {
        "&quot;"@
    } else if c == '\'' {
        "&#39;"@
    } else {
        seq![c]
    }
}

/// How a text is written in HTML: each character on its own.
pub open spec fn escaped(s: Seq<char>) -> Seq<char>
    decreases s.len(),
{
    if s.len() == 0 {
        Seq::empty()
    } else {
        escaped(s.drop_last()) + escaped_char(s.last())
    }
}

/// A text whose line ends are HTML line breaks.
pub open spec fn with_breaks(s: Seq<char>) -> Seq<char> {
    char_replaced(s, '\n', "<br/>"@)
}

/// Escapes `input` for HTML text and quoted attribute values.
pub fn html_escape(input: &str) -> (r: String)
    ensures
        r@ == escaped(input@),
{
    let chars = chars_of(input);
    let mut out = String::new();
    let mut i: usize = 0;
    assert(input@.take(0) =~= Seq::<char>::empty());
    while i < chars.len()
        invariant
            i <= chars@.len(),
            chars@ == input@,
            out@ == escaped(input@.take(i as int)),
        decreases chars@.len() - i,
    {
        assert(input@.take(i + 1).drop_last() =~= input@.take(i as int));
        let c = chars[i];
        if c == '&' {
            out.append("&amp;");
        } else if c == '<' {
            out.append("&lt;");
        } else if c == '>' {
            out.append("&gt;");
        } else if c == '"' {
            out.append("&quot;");
        } else if c == '\'' {
            out.append("&#39;");
        } else {
            out.push(c);
        }
        assert(out@ =~= escaped(input@.take(i + 1)));
        i += 1;
    }
    assert(input@.take(i as int) =~= input@);
    out
}

/// Turns each line end of `html` into a line break.
pub fn break_lines(html: &str) -> (r: String)
    ensures
        r@ == with_breaks(html@),
{
    replace_char(html, '\n', "<br/>")
}

/// Escapes `input` and turns its line ends into line breaks.
pub fn html_escape_lines(input: &str) -> (r: String)
    ensures
        r@ == with_breaks(escaped(input@)),
{
    break_lines(html_escape(input).as_str())
}

// ---------------------------------------------------------------------------
// Laws
// ---------------------------------------------------------------------------

/// The characters with a meaning of their own in HTML, but for the ampersand.
pub open spec fn is_markup(c: char) -> bool {
    c == '<' || c == '>' || c == '"' || c == '\''
}

/// Escaped text holds no angle bracket and no quote.
pub proof fn escaped_holds_no_markup(s: Seq<char>)
    ensures
        forall|i: int| 0 <= i < escaped(s).len() ==> !is_markup(#[trigger] escaped(s)[i]),
    decreases s.len(),
{
    if s.len() > 0 {
        escaped_holds_no_markup(s.drop_last());
        reveal_entities();
        assert forall|i: int| 0 <= i < escaped(s).len() implies !is_markup(
            #[trigger] escaped(s)[i],
        ) by {
            let head = escaped(s.drop_last());
            if i < head.len() {
                assert(escaped(s)[i] == head[i]);
            } else {
                assert(escaped(s)[i] == escaped_char(s.last())[i - head.len()]);
            }
        }
    }
}

/// Escaping two texts joined is joining the two escaped.
pub proof fn escaped_of_joined(a: Seq<char>, b: Seq<char>)
    ensures
        escaped(a + b) == escaped(a) + escaped(b),
    decreases b.len(),
{
    if b.len() == 0 {
        assert(a + b =~= a);
        assert(escaped(a) + escaped(b) =~= escaped(a));
    } else {
        assert((a + b).drop_last() =~= a + b.drop_last());
        escaped_of_joined(a, b.drop_last());
        assert(escaped(a + b) =~= escaped(a) + escaped(b));
    }
}

/// Two texts that look the same escaped are the same: escaping loses nothing.
pub proof fn escaped_loses_nothing(a: Seq<char>, b: Seq<char>)
    requires
        escaped(a) == escaped(b),
    ensures
        a == b,
{
    escaping_is_undone(a);
    escaping_is_undone(b);
}

/// Escaping is the five replacements one after another, the ampersand first.
pub proof fn escaped_is_five_replacements(s: Seq<char>)
    ensures
        escaped(s) == char_replaced(
            char_replaced(
                char_replaced(
                    char_replaced(char_replaced(s, '&', "&amp;"@), '<', "&lt;"@),
                    '>',
                    "&gt;"@,
                ),
                '"',
                "&quot;"@,
            ),
            '\'',
            "&#39;"@,
        ),
    decreases s.len(),
{
    if s.len() > 0 {
        let h = s.drop_last();
        let c = s.last();
        let one = seq![c];
        escaped_is_five_replacements(h);
        assert(s =~= h + one);
        let h1 = char_replaced(h, '&', "&amp;"@);
        let h2 = char_replaced(h1, '<', "&lt;"@);
        let h3 = char_replaced(h2, '>', "&gt;"@);
        let h4 = char_replaced(h3, '"', "&quot;"@);
        let c1 = char_replaced(one, '&', "&amp;"@);
        let c2 = char_replaced(c1, '<', "&lt;"@);
        let c3 = char_replaced(c2, '>', "&gt;"@);
        let c4 = char_replaced(c3, '"', "&quot;"@);
        replaced_of_joined(h, one, '&', "&amp;"@);
        replaced_of_joined(h1, c1, '<', "&lt;"@);
        replaced_of_joined(h2, c2, '>', "&gt;"@);
        replaced_of_joined(h3, c3, '"', "&quot;"@);
        replaced_of_joined(h4, c4, '\'', "&#39;"@);
        reveal_entities();
        replaced_of_one(c, '&', "&amp;"@);
        if c == '&' {
            untouched(c1, '<', "&lt;"@);
            untouched(c1, '>', "&gt;"@);
            untouched(c1, '"', "&quot;"@);
            untouched(c1, '\'', "&#39;"@);
        } else {
            replaced_of_one(c, '<', "&lt;"@);
            if c == '<' {
                untouched(c2, '>', "&gt;"@);
                untouched(c2, '"', "&quot;"@);
                untouched(c2, '\'', "&#39;"@);
            } else {
                replaced_of_one(c, '>', "&gt;"@);
                if c == '>' {
                    untouched(c3, '"', "&quot;"@);
                    untouched(c3, '\'', "&#39;"@);
                } else {
                    replaced_of_one(c, '"', "&quot;"@);
                    if c == '"' {
                        untouched(c4, '\'', "&#39;"@);
                    } else {
                        replaced_of_one(c, '\'', "&#39;"@);
                    }
                }
            }
        }
    }
}

/// Replacing a character in two texts joined is joining the two replaced.
pub proof fn replaced_of_joined(a: Seq<char>, b: Seq<char>, c: char, with: Seq<char>)
    ensures
        char_replaced(a + b, c, with) == char_replaced(a, c, with) + char_replaced(b, c, with),
    decreases b.len(),
{
    if b.len() == 0 {
        assert(a + b =~= a);
        assert(char_replaced(a, c, with) + b =~= char_replaced(a, c, with));
    } else {
        assert((a + b).drop_last() =~= a + b.drop_last());
        replaced_of_joined(a, b.drop_last(), c, with);
        assert(char_replaced(a + b, c, with) =~= char_replaced(a, c, with) + char_replaced(
            b,
            c,
            with,
        ));
    }
}

/// The text that an escaped text stands for: the four entities for brackets and quotes undone,
/// and after that the one for the ampersand.
pub open spec fn unescaped(s: Seq<char>) -> Seq<char> {
    replaced(
        replaced(
            replaced(
                replaced(replaced(s, "&lt;"@, seq!['<']), "&gt;"@, seq!['>']),
                "&quot;"@,
                seq!['"'],
            ),
            "&#39;"@,
            seq!['\''],
        ),
        "&amp;"@,
        seq!['&'],
    )
}

/// Whether one of the five entities stands at position `i`.
pub open spec fn entity_at(s: Seq<char>, i: int) -> bool {
    ||| occurs_at(s, "&amp;"@, i)
    ||| occurs_at(s, "&lt;"@, i)
    ||| occurs_at(s, "&gt;"@, i)
    ||| occurs_at(s, "&quot;"@, i)
    ||| occurs_at(s, "&#39;"@, i)
}

/// Escaping works on each part of a text alone and can be undone; what it gives holds no bracket
/// and no quote, each ampersand in it begins one of the five entities, and exactly the texts
/// without any of the five characters stay as they are.
pub proof fn escaping_is_faithful(a: Seq<char>, b: Seq<char>)
    ensures
        escaped(a + b) == escaped(a) + escaped(b),
        unescaped(escaped(a)) == a,
        forall|i: int| 0 <= i < escaped(a).len() ==> !is_markup(#[trigger] escaped(a)[i]),
        forall|i: int|
            0 <= i < escaped(a).len() && #[trigger] escaped(a)[i] == '&' ==> entity_at(
                escaped(a),
                i,
            ),
        escaped(a) == a <==> forall|i: int|
            0 <= i < a.len() ==> !is_markup(#[trigger] a[i]) && a[i] != '&',
{
    escaped_of_joined(a, b);
    escaped_holds_no_markup(a);
    ampersands_begin_entities(a);
    escaping_is_undone(a);
    plain_text_stays(a);
}

/// How a character is written once the first `n` of the five entities, in the order in which
/// they are undone, are undone.
spec fn partly(c: char, n: nat) -> Seq<char> {
    if (c == '<' && n >= 1) || (c == '>' && n >= 2) || (c == '"' && n >= 3) || (c == '\'' && n >= 4)
        || n >= 5 {
        seq![c]
    } else {
        escaped_char(c)
    }
}

/// How a text is written once the first `n` entities are undone.
spec fn partly_escaped(s: Seq<char>, n: nat) -> Seq<char>
    decreases s.len(),
{
    if s.len() == 0 {
        Seq::empty()
    } else {
        partly(s[0], n) + partly_escaped(s.drop_first(), n)
    }
}

/// The character whose entity is undone after `n` others.
spec fn undone(n: nat) -> char {
    if n == 0 {
        '<'
    } else if n == 1 {
        '>'
    } else if n == 2 {
        '"'
    } else if n == 3 {
        '\''
    } else {
        '&'
    }
}

proof fn escaping_is_undone(s: Seq<char>)
    ensures
        unescaped(escaped(s)) == s,
{
    partly_from_the_front(s);
    undo_one(s, 0);
    undo_one(s, 1);
    undo_one(s, 2);
    undo_one(s, 3);
    undo_one(s, 4);
    partly_at_the_end(s);
    assert(seq![undone(0)] =~= seq!['<']);
    assert(seq![undone(1)] =~= seq!['>']);
    assert(seq![undone(2)] =~= seq!['"']);
    assert(seq![undone(3)] =~= seq!['\'']);
    assert(seq![undone(4)] =~= seq!['&']);
}

proof fn partly_from_the_front(s: Seq<char>)
    ensures
        partly_escaped(s, 0) == escaped(s),
    decreases s.len(),
{
    if s.len() > 0 {
        let rest = s.drop_first();
        partly_from_the_front(rest);
        assert(s =~= seq![s[0]] + rest);
        escaped_of_joined(seq![s[0]], rest);
        escaped_of_one(s[0]);
    }
}

proof fn partly_at_the_end(s: Seq<char>)
    ensures
        partly_escaped(s, 5) == s,
    decreases s.len(),
{
    if s.len() > 0 {
        partly_at_the_end(s.drop_first());
        assert(s =~= seq![s[0]] + s.drop_first());
    }
}

proof fn undo_one(s: Seq<char>, n: nat)
    requires
        n < 5,
    ensures
        replaced(partly_escaped(s, n), escaped_char(undone(n)), seq![undone(n)]) == partly_escaped(
            s,
            n + 1,
        ),
    decreases s.len(),
{
    reveal_entities();
    let pat = escaped_char(undone(n));
    let with = seq![undone(n)];
    if s.len() > 0 {
        let c = s[0];
        let rest = s.drop_first();
        let tail = partly_escaped(rest, n);
        let one = partly(c, n);
        let whole = one + tail;
        undo_one(rest, n);
        if c == undone(n) {
            assert(one == pat);
            assert(whole.subrange(0, pat.len() as int) =~= pat);
            assert(begins_with(whole, pat));
            assert(whole.skip(pat.len() as int) =~= tail);
            assert(partly(c, n + 1) =~= with);
        } else {
            assert(partly(c, n + 1) =~= one);
            assert forall|i: int| 0 <= i < one.len() implies !occurs_at(whole, pat, i) by {
                if occurs_at(whole, pat, i) {
                    let there = whole.subrange(i, i + pat.len());
                    assert(there[0] == pat[0] && there[1] == pat[1]);
                    assert(whole[i] == '&' && whole[i + 1] == pat[1]);
                    assert(one[i] == '&');
                    assert(i == 0);
                    assert(one.len() > 1);
                    assert(one[1] == pat[1]);
                    assert(false);
                }
            }
            nothing_begins_in_front(one, tail, pat, with);
        }
    }
}

proof fn ampersands_begin_entities(s: Seq<char>)
    ensures
        forall|i: int|
            0 <= i < escaped(s).len() && #[trigger] escaped(s)[i] == '&' ==> entity_at(
                escaped(s),
                i,
            ),
    decreases s.len(),
{
    reveal_entities();
    if s.len() > 0 {
        let head = escaped(s.drop_last());
        let last = escaped_char(s.last());
        let whole = escaped(s);
        ampersands_begin_entities(s.drop_last());
        assert forall|i: int| 0 <= i < whole.len() && #[trigger] whole[i] == '&' implies entity_at(
            whole,
            i,
        ) by {
            if i < head.len() {
                assert(head[i] == '&');
                kept_in_front(head, last, "&amp;"@, i);
                kept_in_front(head, last, "&lt;"@, i);
                kept_in_front(head, last, "&gt;"@, i);
                kept_in_front(head, last, "&quot;"@, i);
                kept_in_front(head, last, "&#39;"@, i);
            } else {
                assert(last[i - head.len()] == '&');
                assert(i == head.len());
                assert(whole.subrange(i, i + last.len()) =~= last);
                assert(occurs_at(whole, last, i));
            }
        }
    }
}

proof fn kept_in_front(a: Seq<char>, b: Seq<char>, pat: Seq<char>, i: int)
    ensures
        occurs_at(a, pat, i) ==> occurs_at(a + b, pat, i),
{
    if occurs_at(a, pat, i) {
        assert((a + b).subrange(i, i + pat.len()) =~= a.subrange(i, i + pat.len()));
    }
}

proof fn plain_text_stays(s: Seq<char>)
    ensures
        escaped(s).len() >= s.len(),
        escaped(s) == s <==> forall|i: int|
            0 <= i < s.len() ==> !is_markup(#[trigger] s[i]) && s[i] != '&',
    decreases s.len(),
{
    reveal_entities();
    if s.len() > 0 {
        let rest = s.drop_last();
        let c = s.last();
        plain_text_stays(rest);
        if forall|i: int| 0 <= i < s.len() ==> !is_markup(#[trigger] s[i]) && s[i] != '&' {
            assert forall|i: int| 0 <= i < rest.len() implies !is_markup(#[trigger] rest[i])
                && rest[i] != '&' by {
                assert(rest[i] == s[i]);
            }
            assert(s[s.len() - 1] == c);
            assert(escaped(s) =~= s);
        } else if is_markup(c) || c == '&' {
            assert(escaped(s).len() > s.len());
        } else {
            let k = choose|k: int|
                0 <= k < s.len() && !(!is_markup(#[trigger] s[k]) && s[k] != '&');
            assert(rest[k] == s[k]);
            assert(escaped(rest) != rest);
            assert(escaped(s) == escaped(rest) + seq![c]);
            if escaped(s) == s {
                assert(escaped(rest) =~= s.take(s.len() - 1));
                assert(rest =~= s.take(s.len() - 1));
            }
        }
    } else {
        assert(escaped(s) =~= s);
    }
}

proof fn untouched(s: Seq<char>, c: char, with: Seq<char>)
    requires
        forall|i: int| 0 <= i < s.len() ==> s[i] != c,
    ensures
        char_replaced(s, c, with) == s,
    decreases s.len(),
{
    if s.len() > 0 {
        untouched(s.drop_last(), c, with);
        assert(char_replaced(s, c, with) =~= s);
    }
}

proof fn replaced_of_one(x: char, c: char, with: Seq<char>)
    ensures
        char_replaced(seq![x], c, with) == (if x == c {
            with
        } else {
            seq![x]
        }),
{
    reveal_with_fuel(char_replaced, 2);
    assert(seq![x].drop_last() =~= Seq::<char>::empty());
    assert(char_replaced(seq![x], c, with) =~= (if x == c {
        with
    } else {
        seq![x]
    }));
}

proof fn escaped_of_one(c: char)
    ensures
        escaped(seq![c]) == escaped_char(c),
{
    reveal_with_fuel(escaped, 2);
    assert(seq![c].drop_last() =~= Seq::<char>::empty());
    assert(escaped(seq![c]) =~= escaped_char(c));
}

proof fn reveal_entities()
    ensures
        "&amp;"@ == seq!['&', 'a', 'm', 'p', ';'],
        "&lt;"@ == seq!['&', 'l', 't', ';'],
        "&gt;"@ == seq!['&', 'g', 't', ';'],
        "&quot;"@ == seq!['&', 'q', 'u', 'o', 't', ';'],
        "&#39;"@ == seq!['&', '#', '3', '9', ';'],
{
    reveal_strlit("&amp;");
    reveal_strlit("&lt;");
    reveal_strlit("&gt;");
    reveal_strlit("&quot;");
    reveal_strlit("&#39;");
}

/// Every line end becomes a line break, and a text without line ends stays as it is.
pub proof fn line_ends_become_breaks(a: Seq<char>, b: Seq<char>)
    ensures
        with_breaks(a + seq!['\n'] + b) == with_breaks(a) + "<br/>"@ + with_breaks(b),
        with_breaks(a + b) == with_breaks(a) + with_breaks(b),
        (forall|i: int| 0 <= i < a.len() ==> a[i] != '\n') ==> with_breaks(a) == a,
{
    replaced_of_joined(a + seq!['\n'], b, '\n', "<br/>"@);
    replaced_of_joined(a, seq!['\n'], '\n', "<br/>"@);
    replaced_of_joined(a, b, '\n', "<br/>"@);
    replaced_of_one('\n', '\n', "<br/>"@);
    if forall|i: int| 0 <= i < a.len() ==> a[i] != '\n' {
        untouched(a, '\n', "<br/>"@);
    }
}

} // verus!
