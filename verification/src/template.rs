//! Header and footer templates.
use vstd::prelude::*;

use crate::escape::{
    break_lines, escaped, escaped_holds_no_markup, escaping_is_faithful, html_escape, is_markup,
    line_ends_become_breaks, with_breaks,
};
use crate::number::{decimal, decimal_has_its_value, decimal_text, decimals_differ, is_digit};
use crate::report::ReportMeta;
use crate::text::{
    begins_with, blank, concat, first_place_is_replaced, joined_lists_meet_at_a_separator,
    middle_tells_apart, nothing_begins_in_front, occurs, occurs_at, replace_all, replaced,
};

verus! {

/// The template with its tokens filled in, one kind of token after the other: a token that an
/// earlier value brings in is filled in with the rest.
pub open spec fn filled_in(template: Seq<char>, meta: &ReportMeta, page: nat, total: nat) -> Seq<
    char,
> {
    let t1 = replaced(template, "{title}"@, meta.title@);
    let t2 = replaced(t1, "{site_address}"@, meta.site_address@);
    let t3 = replaced(t2, "{author}"@, meta.author@);
    let t4 = replaced(t3, "{date}"@, meta.date@);
    let t5 = replaced(t4, "{notes}"@, meta.notes@);
    let t6 = replaced(t5, "{page}"@, decimal(page));
    replaced(t6, "{total_pages}"@, decimal(total))
}

/// The HTML of a header or footer.
pub open spec fn rendered(template: Seq<char>, meta: &ReportMeta, page: nat, total: nat) -> Seq<
    char,
> {
    with_breaks(escaped(filled_in(template, meta, page, total)))
}

/// Fills in the tokens of a template and makes it HTML.
pub fn apply_pdf_template(
    template: &str,
    meta: &ReportMeta,
    page: usize,
    total_pages: usize,
) -> (html: String)
    ensures
        html@ == rendered(template@, meta, page as nat, total_pages as nat),
{
    proof {
        reveal_strlit("{title}");
        reveal_strlit("{site_address}");
        reveal_strlit("{author}");
        reveal_strlit("{date}");
        reveal_strlit("{notes}");
        reveal_strlit("{page}");
        reveal_strlit("{total_pages}");
    }
    let page_str = decimal_text(page as u64);
    let total_pages_str = decimal_text(total_pages as u64);
    let t1 = replace_all(template, "{title}", meta.title.as_str());
    let t2 = replace_all(t1.as_str(), "{site_address}", meta.site_address.as_str());
    let t3 = replace_all(t2.as_str(), "{author}", meta.author.as_str());
    let t4 = replace_all(t3.as_str(), "{date}", meta.date.as_str());
    let t5 = replace_all(t4.as_str(), "{notes}", meta.notes.as_str());
    let t6 = replace_all(t5.as_str(), "{page}", page_str.as_str());
    let t7 = replace_all(t6.as_str(), "{total_pages}", total_pages_str.as_str());
    break_lines(html_escape(t7.as_str()).as_str())
}

// ---------------------------------------------------------------------------
// Laws
// ---------------------------------------------------------------------------

/// A template without an opening brace shows as it is written, on every page.
pub proof fn plain_template_shows_as_written(
    template: Seq<char>,
    meta: &ReportMeta,
    page: nat,
    total: nat,
)
    requires
        forall|i: int| 0 <= i < template.len() ==> template[i] != '{',
    ensures
        rendered(template, meta, page, total) == with_breaks(escaped(template)),
{
    reveal_strlit("{title}");
    reveal_strlit("{site_address}");
    reveal_strlit("{author}");
    reveal_strlit("{date}");
    reveal_strlit("{notes}");
    reveal_strlit("{page}");
    reveal_strlit("{total_pages}");
    nothing_to_replace(template, "{title}"@, meta.title@);
    nothing_to_replace(template, "{site_address}"@, meta.site_address@);
    nothing_to_replace(template, "{author}"@, meta.author@);
    nothing_to_replace(template, "{date}"@, meta.date@);
    nothing_to_replace(template, "{notes}"@, meta.notes@);
    nothing_to_replace(template, "{page}"@, decimal(page));
    nothing_to_replace(template, "{total_pages}"@, decimal(total));
}

/// An empty template gives an empty header or footer.
pub proof fn empty_template_gives_nothing(meta: &ReportMeta, page: nat, total: nat)
    ensures
        rendered(Seq::empty(), meta, page, total) == Seq::<char>::empty(),
        blank(rendered(Seq::empty(), meta, page, total)),
{
    plain_template_shows_as_written(Seq::empty(), meta, page, total);
}

/// A header or footer holds no quote.
pub proof fn rendered_text_holds_no_quote(
    template: Seq<char>,
    meta: &ReportMeta,
    page: nat,
    total: nat,
)
    ensures
        forall|i: int|
            0 <= i < rendered(template, meta, page, total).len() ==> (#[trigger] rendered(
                template,
                meta,
                page,
                total,
            )[i]) != '"' && rendered(template, meta, page, total)[i] != '\'',
{
    let text = escaped(filled_in(template, meta, page, total));
    escaped_holds_no_markup(filled_in(template, meta, page, total));
    breaks_bring_no_quote(text);
}

proof fn breaks_bring_no_quote(s: Seq<char>)
    requires
        forall|i: int| 0 <= i < s.len() ==> (#[trigger] s[i]) != '"' && s[i] != '\'',
    ensures
        forall|i: int|
            0 <= i < with_breaks(s).len() ==> (#[trigger] with_breaks(s)[i]) != '"' && with_breaks(
                s,
            )[i] != '\'',
    decreases s.len(),
{
    if s.len() > 0 {
        breaks_bring_no_quote(s.drop_last());
        reveal_strlit("<br/>");
        let head = with_breaks(s.drop_last());
        let tail = if s.last() == '\n' {
            "<br/>"@
        } else {
            seq![s.last()]
        };
        assert(with_breaks(s) == head + tail);
        assert forall|i: int| 0 <= i < with_breaks(s).len() implies (#[trigger] with_breaks(s)[i])
            != '"' && with_breaks(s)[i] != '\'' by {
            if i < head.len() {
                assert(with_breaks(s)[i] == head[i]);
            } else {
                assert(with_breaks(s)[i] == tail[i - head.len()]);
            }
        }
    }
}

proof fn nothing_to_replace(s: Seq<char>, pat: Seq<char>, with: Seq<char>)
    requires
        pat.len() > 0,
        forall|i: int| 0 <= i < s.len() ==> s[i] != pat[0],
    ensures
        replaced(s, pat, with) == s,
    decreases s.len(),
{
    if s.len() > 0 {
        if begins_with(s, pat) {
            assert(s.subrange(0, pat.len() as int)[0] == s[0]);
        }
        nothing_to_replace(s.drop_first(), pat, with);
        assert(replaced(s, pat, with) =~= s);
    }
}

/// Whether a text holds no opening brace.
pub open spec fn braceless(s: Seq<char>) -> bool {
    forall|i: int| 0 <= i < s.len() ==> #[trigger] s[i] != '{'
}

/// Whether a piece of a template shows so: text without a brace shows as it is, and each of the
/// seven tokens shows the field, the page number or the number of pages that it names.
pub open spec fn shows_as(
    written: Seq<char>,
    shown: Seq<char>,
    meta: &ReportMeta,
    page: nat,
    total: nat,
) -> bool {
    &&& braceless(shown)
    &&& {
        ||| shown == written
        ||| written == "{title}"@ && shown == meta.title@
        ||| written == "{site_address}"@ && shown == meta.site_address@
        ||| written == "{author}"@ && shown == meta.author@
        ||| written == "{date}"@ && shown == meta.date@
        ||| written == "{notes}"@ && shown == meta.notes@
        ||| written == "{page}"@ && shown == decimal(page)
        ||| written == "{total_pages}"@ && shown == decimal(total)
    }
}

/// Each piece of a template shows on its own: however texts and tokens follow each other, and
/// however often, every token becomes what it names and every text stays. A field that itself
/// holds a brace may name further tokens and is left out here.
pub proof fn every_token_shows_what_it_names(
    written: Seq<Seq<char>>,
    shown: Seq<Seq<char>>,
    meta: &ReportMeta,
    page: nat,
    total: nat,
)
    requires
        written.len() == shown.len(),
        forall|i: int|
            0 <= i < written.len() ==> shows_as(#[trigger] written[i], shown[i], meta, page, total),
    ensures
        rendered(concat(written), meta, page, total) == with_breaks(escaped(concat(shown))),
{
    staged_from_the_front(written, shown, meta, page, total);
    fill_one(written, shown, meta, page, total, 0);
    fill_one(written, shown, meta, page, total, 1);
    fill_one(written, shown, meta, page, total, 2);
    fill_one(written, shown, meta, page, total, 3);
    fill_one(written, shown, meta, page, total, 4);
    fill_one(written, shown, meta, page, total, 5);
    fill_one(written, shown, meta, page, total, 6);
}

/// The page number stands in the header or footer digit by digit where its token stands, and the
/// number of pages likewise; so two pages, or two reports of different length, never show the
/// same.
pub proof fn page_numbers_show(
    a: Seq<char>,
    b: Seq<char>,
    meta: &ReportMeta,
    page: nat,
    total: nat,
    other: nat,
)
    requires
        braceless(a),
        braceless(b),
    ensures
        rendered(a + "{page}"@ + b, meta, page, total) == with_breaks(escaped(a)) + decimal(page)
            + with_breaks(escaped(b)),
        rendered(a + "{total_pages}"@ + b, meta, page, total) == with_breaks(escaped(a)) + decimal(
            total,
        ) + with_breaks(escaped(b)),
        page != other ==> rendered(a + "{page}"@ + b, meta, page, total) != rendered(
            a + "{page}"@ + b,
            meta,
            other,
            total,
        ),
        total != other ==> rendered(a + "{total_pages}"@ + b, meta, page, total) != rendered(
            a + "{total_pages}"@ + b,
            meta,
            page,
            other,
        ),
{
    number_shows(a, "{page}"@, b, decimal(page), meta, page, total, page);
    number_shows(a, "{total_pages}"@, b, decimal(total), meta, page, total, total);
    number_shows(a, "{page}"@, b, decimal(other), meta, other, total, other);
    number_shows(a, "{total_pages}"@, b, decimal(other), meta, page, other, other);
    decimals_differ(page, other);
    decimals_differ(total, other);
    let front = with_breaks(escaped(a));
    let back = with_breaks(escaped(b));
    middle_tells_apart(front, decimal(page), decimal(other), back);
    middle_tells_apart(front, decimal(total), decimal(other), back);
}

/// Each of the five fields of the report stands in the header or footer where its token stands.
pub proof fn fields_show(
    a: Seq<char>,
    b: Seq<char>,
    meta: &ReportMeta,
    page: nat,
    total: nat,
)
    requires
        braceless(a),
        braceless(b),
    ensures
        braceless(meta.title@) ==> rendered(a + "{title}"@ + b, meta, page, total) == with_breaks(
            escaped(a + meta.title@ + b),
        ),
        braceless(meta.site_address@) ==> rendered(a + "{site_address}"@ + b, meta, page, total)
            == with_breaks(escaped(a + meta.site_address@ + b)),
        braceless(meta.author@) ==> rendered(a + "{author}"@ + b, meta, page, total)
            == with_breaks(escaped(a + meta.author@ + b)),
        braceless(meta.date@) ==> rendered(a + "{date}"@ + b, meta, page, total) == with_breaks(
            escaped(a + meta.date@ + b),
        ),
        braceless(meta.notes@) ==> rendered(a + "{notes}"@ + b, meta, page, total) == with_breaks(
            escaped(a + meta.notes@ + b),
        ),
{
    if braceless(meta.title@) {
        token_shows(a, "{title}"@, b, meta.title@, meta, page, total);
    }
    if braceless(meta.site_address@) {
        token_shows(a, "{site_address}"@, b, meta.site_address@, meta, page, total);
    }
    if braceless(meta.author@) {
        token_shows(a, "{author}"@, b, meta.author@, meta, page, total);
    }
    if braceless(meta.date@) {
        token_shows(a, "{date}"@, b, meta.date@, meta, page, total);
    }
    if braceless(meta.notes@) {
        token_shows(a, "{notes}"@, b, meta.notes@, meta, page, total);
    }
}

/// The title is filled in first: a template that names it shows as the template with the title
/// itself in that place, tokens in the title included.
pub proof fn tokens_in_the_title_count(
    a: Seq<char>,
    b: Seq<char>,
    meta: &ReportMeta,
    page: nat,
    total: nat,
)
    requires
        braceless(a),
        !occurs(b, "{title}"@),
        !occurs(a + meta.title@ + b, "{title}"@),
    ensures
        rendered(a + "{title}"@ + b, meta, page, total) == rendered(
            a + meta.title@ + b,
            meta,
            page,
            total,
        ),
{
    let tok = "{title}"@;
    reveal_strlit("{title}");
    let whole = a + tok + b;
    assert forall|i: int| 0 <= i < a.len() implies !occurs_at(whole, tok, i) by {
        if occurs_at(whole, tok, i) {
            assert(whole.subrange(i, i + tok.len())[0] == whole[i]);
            assert(whole[i] == a[i]);
        }
    }
    first_place_is_replaced(a, b, tok, meta.title@);
    first_place_is_replaced(b, b, tok, meta.title@);
    first_place_is_replaced(a + meta.title@ + b, b, tok, meta.title@);
}

proof fn token_shows(
    a: Seq<char>,
    token: Seq<char>,
    b: Seq<char>,
    value: Seq<char>,
    meta: &ReportMeta,
    page: nat,
    total: nat,
)
    requires
        braceless(a),
        braceless(b),
        shows_as(token, value, meta, page, total),
    ensures
        rendered(a + token + b, meta, page, total) == with_breaks(escaped(a + value + b)),
{
    let written = seq![a, token, b];
    let shown = seq![a, value, b];
    every_token_shows_what_it_names(written, shown, meta, page, total);
    three_parts(a, token, b);
    three_parts(a, value, b);
}

proof fn three_parts(a: Seq<char>, b: Seq<char>, c: Seq<char>)
    ensures
        concat(seq![a, b, c]) == a + b + c,
{
    reveal_with_fuel(concat, 4);
    assert(seq![a, b, c].drop_last() =~= seq![a, b]);
    assert(seq![a, b].drop_last() =~= seq![a]);
    assert(seq![a].drop_last() =~= Seq::<Seq<char>>::empty());
    assert(concat(seq![a, b, c]) =~= a + b + c);
}

proof fn number_shows(
    a: Seq<char>,
    token: Seq<char>,
    b: Seq<char>,
    value: Seq<char>,
    meta: &ReportMeta,
    page: nat,
    total: nat,
    n: nat,
)
    requires
        braceless(a),
        braceless(b),
        value == decimal(n),
        token == "{page}"@ && n == page || token == "{total_pages}"@ && n == total,
    ensures
        rendered(a + token + b, meta, page, total) == with_breaks(escaped(a)) + decimal(n)
            + with_breaks(escaped(b)),
{
    number_is_plain(n);
    token_shows(a, token, b, value, meta, page, total);
    escaping_is_faithful(a + value, b);
    escaping_is_faithful(a, value);
    escaping_is_faithful(value, b);
    line_ends_become_breaks(escaped(a) + escaped(value), escaped(b));
    line_ends_become_breaks(escaped(a), escaped(value));
    line_ends_become_breaks(value, b);
}

proof fn number_is_plain(n: nat)
    ensures
        braceless(decimal(n)),
        forall|i: int|
            0 <= i < decimal(n).len() ==> !is_markup(#[trigger] decimal(n)[i]) && decimal(n)[i]
                != '&' && decimal(n)[i] != '\n',
{
    decimal_has_its_value(n);
    assert forall|i: int| 0 <= i < decimal(n).len() implies #[trigger] decimal(n)[i] != '{'
        && !is_markup(decimal(n)[i]) && decimal(n)[i] != '&' && decimal(n)[i] != '\n' by {
        assert(is_digit(decimal(n)[i]));
    }
}

/// The tokens in the order in which they are filled in.
pub open spec fn token(n: nat) -> Seq<char> {
    if n == 0 {
        "{title}"@
    } else if n == 1 {
        "{site_address}"@
    } else if n == 2 {
        "{author}"@
    } else if n == 3 {
        "{date}"@
    } else if n == 4 {
        "{notes}"@
    } else if n == 5 {
        "{page}"@
    } else {
        "{total_pages}"@
    }
}

/// What the tokens stand for.
pub open spec fn named(n: nat, meta: &ReportMeta, page: nat, total: nat) -> Seq<char> {
    if n == 0 {
        meta.title@
    } else if n == 1 {
        meta.site_address@
    } else if n == 2 {
        meta.author@
    } else if n == 3 {
        meta.date@
    } else if n == 4 {
        meta.notes@
    } else if n == 5 {
        decimal(page)
    } else {
        decimal(total)
    }
}

/// A piece once the first `n` tokens are filled in.
spec fn staged(written: Seq<char>, shown: Seq<char>, n: nat) -> Seq<char> {
    if exists|k: nat| n <= k < 7 && written == #[trigger] token(k) {
        written
    } else {
        shown
    }
}

/// A template once the first `n` tokens are filled in.
spec fn stage(written: Seq<Seq<char>>, shown: Seq<Seq<char>>, n: nat) -> Seq<char>
    decreases written.len(),
{
    if written.len() == 0 {
        Seq::empty()
    } else {
        staged(written[0], shown[0], n) + stage(written.drop_first(), shown.drop_first(), n)
    }
}

proof fn tokens_are_known(n: nat)
    requires
        n < 7,
    ensures
        token(n).len() >= 6,
        token(n)[0] == '{',
        forall|i: int| 1 <= i < token(n).len() ==> #[trigger] token(n)[i] != '{',
        !braceless(token(n)),
        forall|k: nat|
            k < 7 && k != n ==> (#[trigger] token(k))[1] != token(n)[1] || token(k)[2] != token(
                n,
            )[2],
{
    reveal_strlit("{title}");
    reveal_strlit("{site_address}");
    reveal_strlit("{author}");
    reveal_strlit("{date}");
    reveal_strlit("{notes}");
    reveal_strlit("{page}");
    reveal_strlit("{total_pages}");
    assert(token(n)[0] == '{');
}

proof fn fill_one(
    written: Seq<Seq<char>>,
    shown: Seq<Seq<char>>,
    meta: &ReportMeta,
    page: nat,
    total: nat,
    n: nat,
)
    requires
        n < 7,
        written.len() == shown.len(),
        forall|i: int|
            0 <= i < written.len() ==> shows_as(#[trigger] written[i], shown[i], meta, page, total),
    ensures
        replaced(stage(written, shown, n), token(n), named(n, meta, page, total)) == stage(
            written,
            shown,
            n + 1,
        ),
    decreases written.len(),
{
    tokens_are_known(n);
    let pat = token(n);
    let with = named(n, meta, page, total);
    if written.len() > 0 {
        let w = written[0];
        let v = shown[0];
        let rest = written.drop_first();
        let rest_shown = shown.drop_first();
        assert forall|i: int| 0 <= i < rest.len() implies shows_as(
            #[trigger] rest[i],
            rest_shown[i],
            meta,
            page,
            total,
        ) by {
            assert(shows_as(written[i + 1], shown[i + 1], meta, page, total));
        }
        fill_one(rest, rest_shown, meta, page, total, n);
        assert(shows_as(written[0], shown[0], meta, page, total));
        piece_advances(w, v, meta, page, total, n);
        let one = staged(w, v, n);
        let tail = stage(rest, rest_shown, n);
        let whole = one + tail;
        if w == pat {
            assert(whole.subrange(0, pat.len() as int) =~= pat);
            assert(begins_with(whole, pat));
            assert(whole.skip(pat.len() as int) =~= tail);
        } else {
            assert forall|i: int| 0 <= i < one.len() implies !occurs_at(whole, pat, i) by {
                if occurs_at(whole, pat, i) {
                    let there = whole.subrange(i, i + pat.len());
                    assert(there[0] == whole[i] && there[1] == whole[i + 1] && there[2] == whole[i
                        + 2]);
                    assert(one[i] == '{');
                    token_or_braceless(w, v, meta, page, total, n);
                    let k = choose|k: nat| n <= k < 7 && w == #[trigger] token(k);
                    tokens_are_known(k);
                    assert(one == token(k) && k != n);
                    assert(i == 0);
                    assert(one[1] == pat[1] && one[2] == pat[2]);
                }
            }
            nothing_begins_in_front(one, tail, pat, with);
        }
    }
}

proof fn token_or_braceless(
    w: Seq<char>,
    v: Seq<char>,
    meta: &ReportMeta,
    page: nat,
    total: nat,
    n: nat,
)
    requires
        shows_as(w, v, meta, page, total),
    ensures
        braceless(staged(w, v, n)) || exists|k: nat| n <= k < 7 && w == #[trigger] token(k),
{
}

proof fn piece_advances(
    w: Seq<char>,
    v: Seq<char>,
    meta: &ReportMeta,
    page: nat,
    total: nat,
    n: nat,
)
    requires
        n < 7,
        shows_as(w, v, meta, page, total),
    ensures
        w == token(n) ==> staged(w, v, n) == token(n) && staged(w, v, n + 1) == named(
            n,
            meta,
            page,
            total,
        ),
        w != token(n) ==> staged(w, v, n + 1) == staged(w, v, n),
{
    tokens_are_known(n);
    if w == token(n) {
        assert forall|k: nat| n + 1 <= k < 7 implies w != #[trigger] token(k) by {
            assert(token(k)[1] != token(n)[1] || token(k)[2] != token(n)[2]);
        }
        assert(v != w);
        name_of_token(w, v, meta, page, total, n);
    } else {
        if exists|k: nat| n <= k < 7 && w == #[trigger] token(k) {
            let k = choose|k: nat| n <= k < 7 && w == #[trigger] token(k);
            assert(n + 1 <= k < 7 && w == token(k));
        }
    }
}

proof fn name_of_token(
    w: Seq<char>,
    v: Seq<char>,
    meta: &ReportMeta,
    page: nat,
    total: nat,
    n: nat,
)
    requires
        n < 7,
        w == token(n),
        v != w,
        shows_as(w, v, meta, page, total),
    ensures
        v == named(n, meta, page, total),
{
    tokens_are_known(n);
    assert(w[1] == token(n)[1] && w[2] == token(n)[2]);
    assert(token(0) == "{title}"@ && token(1) == "{site_address}"@ && token(2) == "{author}"@
        && token(3) == "{date}"@ && token(4) == "{notes}"@ && token(5) == "{page}"@ && token(6)
        == "{total_pages}"@);
}

proof fn staged_from_the_front(
    written: Seq<Seq<char>>,
    shown: Seq<Seq<char>>,
    meta: &ReportMeta,
    page: nat,
    total: nat,
)
    requires
        written.len() == shown.len(),
        forall|i: int|
            0 <= i < written.len() ==> shows_as(#[trigger] written[i], shown[i], meta, page, total),
    ensures
        stage(written, shown, 0) == concat(written),
        stage(written, shown, 7) == concat(shown),
    decreases written.len(),
{
    if written.len() > 0 {
        let w = written[0];
        let v = shown[0];
        let rest = written.drop_first();
        let rest_shown = shown.drop_first();
        assert forall|i: int| 0 <= i < rest.len() implies shows_as(
            #[trigger] rest[i],
            rest_shown[i],
            meta,
            page,
            total,
        ) by {
            assert(shows_as(written[i + 1], shown[i + 1], meta, page, total));
        }
        staged_from_the_front(rest, rest_shown, meta, page, total);
        assert(shows_as(written[0], shown[0], meta, page, total));
        assert(staged(w, v, 0) == w) by {
            if v != w {
                assert(w == token(0) || w == token(1) || w == token(2) || w == token(3) || w
                    == token(4) || w == token(5) || w == token(6));
            }
        }
        assert(staged(w, v, 7) == v);
        assert(written =~= seq![w] + rest);
        assert(shown =~= seq![v] + rest_shown);
        joined_lists_meet_at_a_separator(seq![w], rest, Seq::empty(), w);
        joined_lists_meet_at_a_separator(seq![v], rest_shown, Seq::empty(), v);
    }
}

/// The tokens are filled in one after the other. What a token stands for may hold later tokens,
/// which are filled in too, as if it stood in the template itself; earlier tokens in it are not,
/// and show as they are written.
pub proof fn later_tokens_in_a_field_count(
    a: Seq<char>,
    b: Seq<char>,
    meta: &ReportMeta,
    page: nat,
    total: nat,
    k: nat,
)
    requires
        k < 7,
        braceless(a),
        braceless(b),
    ensures
        ({
            let text = a + named(k, meta, page, total) + b;
            let html = rendered(a + token(k) + b, meta, page, total);
            &&& (forall|j: nat| j <= k ==> !occurs(text, #[trigger] token(j))) ==> html == rendered(
                text,
                meta,
                page,
                total,
            )
            &&& (forall|j: nat| k < j < 7 ==> !occurs(text, #[trigger] token(j))) ==> html
                == with_breaks(escaped(text))
        }),
{
    let tok = token(k);
    let value = named(k, meta, page, total);
    let whole = a + tok + b;
    let text = a + value + b;
    tokens_are_known(k);
    assert forall|j: nat| j < 7 && j != k implies !occurs(whole, #[trigger] token(j)) by {
        other_tokens_are_not_there(a, b, k, j);
    }
    assert forall|i: int| 0 <= i < a.len() implies !occurs_at(whole, tok, i) by {
        if occurs_at(whole, tok, i) {
            assert(whole.subrange(i, i + tok.len())[0] == whole[i]);
            assert(whole[i] == a[i]);
        }
    }
    first_place_is_replaced(a, b, tok, value);
    nothing_to_replace(b, tok, value);
    assert(replaced(whole, tok, value) == text);
    all_steps(whole, meta, page, total);
    passed_over(whole, meta, page, total, 0, k);
    assert(filled_from(whole, meta, page, total, k) == filled_from(
        text,
        meta,
        page,
        total,
        k + 1,
    ));
    if forall|j: nat| j <= k ==> !occurs(text, #[trigger] token(j)) {
        all_steps(text, meta, page, total);
        passed_over(text, meta, page, total, 0, k + 1);
    }
    if forall|j: nat| k < j < 7 ==> !occurs(text, #[trigger] token(j)) {
        passed_over(text, meta, page, total, k + 1, 7);
    }
}

/// A template once all tokens from number `n` on are filled in.
spec fn filled_from(
    s: Seq<char>,
    meta: &ReportMeta,
    page: nat,
    total: nat,
    n: nat,
) -> Seq<char>
    decreases 7 - n,
{
    if n >= 7 {
        s
    } else {
        filled_from(replaced(s, token(n), named(n, meta, page, total)), meta, page, total, n + 1)
    }
}

proof fn all_steps(s: Seq<char>, meta: &ReportMeta, page: nat, total: nat)
    ensures
        filled_in(s, meta, page, total) == filled_from(s, meta, page, total, 0),
{
    reveal_with_fuel(filled_from, 8);
}

proof fn passed_over(
    s: Seq<char>,
    meta: &ReportMeta,
    page: nat,
    total: nat,
    n: nat,
    m: nat,
)
    requires
        n <= m <= 7,
        forall|j: nat| n <= j < m ==> !occurs(s, #[trigger] token(j)),
    ensures
        filled_from(s, meta, page, total, n) == filled_from(s, meta, page, total, m),
    decreases m - n,
{
    if n < m {
        tokens_are_known(n);
        assert(!occurs(s, token(n)));
        first_place_is_replaced(s, s, token(n), named(n, meta, page, total));
        passed_over(s, meta, page, total, n + 1, m);
    }
}

proof fn other_tokens_are_not_there(a: Seq<char>, b: Seq<char>, k: nat, j: nat)
    requires
        k < 7,
        j < 7,
        j != k,
        braceless(a),
        braceless(b),
    ensures
        !occurs(a + token(k) + b, token(j)),
{
    tokens_are_known(k);
    tokens_are_known(j);
    let whole = a + token(k) + b;
    let tok = token(j);
    if occurs(whole, tok) {
        let i = choose|i: int| occurs_at(whole, tok, i);
        let there = whole.subrange(i, i + tok.len());
        assert(there[0] == whole[i] && there[1] == whole[i + 1] && there[2] == whole[i + 2]);
        assert(whole[i] == '{');
        if i < a.len() {
            assert(whole[i] == a[i]);
        } else if i >= a.len() + token(k).len() {
            assert(whole[i] == b[i - a.len() - token(k).len()]);
        } else {
            assert(whole[i] == token(k)[i - a.len()]);
            assert(i == a.len());
            assert(whole[i + 1] == token(k)[1] && whole[i + 2] == token(k)[2]);
        }
    }
}

} // verus!
