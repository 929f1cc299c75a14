//! File names for exports, told from what the report says of itself.
use vstd::prelude::*;
use vstd::utf8::{encode_scalar, encode_utf8, is_ascii_chars, is_ascii_chars_encode_utf8};

use crate::number::{decimal, decimals_differ, hex_tail, hex_tail_text, push_decimal};
use crate::report::ReportMeta;
use crate::text::{
    chars_of, join, join_strings, joined_lists_meet_at_a_separator, last_index, last_index_is_last,
    middle_tells_apart, rfind, string_from, texts,
};
use crate::unicode::{alphanumeric, is_alphanumeric};

verus! {

// ---------------------------------------------------------------------------
// Bytes
// ---------------------------------------------------------------------------

/// How many bytes a text takes.
pub open spec fn byte_len(s: Seq<char>) -> nat {
    encode_utf8(s).len()
}

/// How many bytes a character takes.
fn char_bytes(c: char) -> (n: usize)
    ensures
        n == encode_scalar(c as u32).len(),
        1 <= n <= 4,
{
    let v = c as u32;
    if v <= 0x7F {
        1
    } else if v <= 0x7FF {
        2
    } else if v <= 0xFFFF {
        3
    } else {
        4
    }
}

proof fn encoding_of_joined(a: Seq<char>, b: Seq<char>)
    ensures
        encode_utf8(a + b) == encode_utf8(a) + encode_utf8(b),
    decreases a.len(),
{
    if a.len() == 0 {
        assert(a + b =~= b);
        assert(encode_utf8(a) + encode_utf8(b) =~= encode_utf8(b));
    } else {
        assert((a + b).drop_first() =~= a.drop_first() + b);
        encoding_of_joined(a.drop_first(), b);
        assert(encode_utf8(a + b) =~= encode_utf8(a) + encode_utf8(b));
    }
}

proof fn byte_len_of_next(s: Seq<char>, k: int)
    requires
        0 <= k < s.len(),
    ensures
        byte_len(s.take(k + 1)) == byte_len(s.take(k)) + encode_scalar(s[k] as u32).len(),
        encode_scalar(s[k] as u32).len() >= 1,
{
    let one = seq![s[k]];
    assert(s.take(k + 1) =~= s.take(k) + one);
    encoding_of_joined(s.take(k), one);
    assert(one.drop_first() =~= Seq::<char>::empty());
    reveal_with_fuel(encode_utf8, 2);
    assert(encode_utf8(one) =~= encode_scalar(s[k] as u32));
}

proof fn fitting_is_longest(s: Seq<char>, max: nat, k: int)
    requires
        0 <= k <= s.len(),
        byte_len(s.take(k)) <= max,
        k < s.len() ==> byte_len(s.take(k + 1)) > max,
    ensures
        fitting(s, max) == k,
    decreases s.len(),
{
    assert(s.take(s.len() as int) =~= s);
    if k < s.len() {
        byte_len_grows(s, k + 1, s.len() as int);
        let rest = s.drop_last();
        assert(rest.take(k) =~= s.take(k));
        if k < rest.len() {
            assert(rest.take(k + 1) =~= s.take(k + 1));
        }
        fitting_is_longest(rest, max, k);
    }
}

proof fn byte_len_grows(s: Seq<char>, i: int, j: int)
    requires
        0 <= i <= j <= s.len(),
    ensures
        byte_len(s.take(i)) + (j - i) <= byte_len(s.take(j)),
    decreases j - i,
{
    if i < j {
        byte_len_grows(s, i, j - 1);
        byte_len_of_next(s, j - 1);
    }
}

// ---------------------------------------------------------------------------
// Parts
// ---------------------------------------------------------------------------

/// How a character stands in a file name, by whether it is alphanumeric.
pub open spec fn in_name(c: char, alnum: bool) -> char {
    if alnum || c == '-' {
        c
    } else {
        '_'
    }
}

/// How a character stands in a file name.
pub open spec fn safe_char(c: char) -> char {
    in_name(c, alphanumeric(c))
}

/// A text without the character `c` at both ends.
pub open spec fn trimmed(s: Seq<char>, c: char) -> Seq<char>
    decreases s.len(),
{
    if s.len() == 0 {
        s
    } else if s[0] == c {
        trimmed(s.drop_first(), c)
    } else if s.last() == c {
        trimmed(s.drop_last(), c)
    } else {
        s
    }
}

/// How a text stands in a file name.
pub open spec fn sanitized(s: Seq<char>) -> Seq<char> {
    trimmed(s.map_values(|c: char| safe_char(c)), '_')
}

/// How many characters at the beginning of `s` take at most `max` bytes.
pub open spec fn fitting(s: Seq<char>, max: nat) -> nat
    decreases s.len(),
{
    if s.len() == 0 || byte_len(s) <= max {
        s.len()
    } else {
        fitting(s.drop_last(), max)
    }
}

/// `s` where it takes at most `max` bytes; else the characters that fit, and of these only what
/// stands before the last underscore where that is more than half of `max`.
pub open spec fn shortened(s: Seq<char>, max: nat) -> Seq<char> {
    if byte_len(s) <= max {
        s
    } else {
        let cut = s.take(fitting(s, max) as int);
        match last_index(cut, '_') {
            Some(i) if byte_len(cut.take(i)) > max / 2 => cut.take(i),
            _ => cut,
        }
    }
}

/// Gives a character as it stands in a file name, by whether it is alphanumeric.
pub fn name_char(c: char, alnum: bool) -> (r: char)
    ensures
        r == in_name(c, alnum),
{
    if alnum || c == '-' {
        c
    } else {
        '_'
    }
}

proof fn trimmed_in_front(s: Seq<char>, start: int, end: int, c: char)
    requires
        0 <= start < end <= s.len(),
        s[start] == c,
    ensures
        trimmed(s.subrange(start, end), c) == trimmed(s.subrange(start + 1, end), c),
{
    let part = s.subrange(start, end);
    assert(part[0] == s[start]);
    assert(part.drop_first() =~= s.subrange(start + 1, end));
}

proof fn trimmed_behind(s: Seq<char>, start: int, end: int, c: char)
    requires
        0 <= start < end <= s.len(),
        s[start] != c,
        s[end - 1] == c,
    ensures
        trimmed(s.subrange(start, end), c) == trimmed(s.subrange(start, end - 1), c),
{
    let part = s.subrange(start, end);
    assert(part[0] == s[start]);
    assert(part.last() == s[end - 1]);
    assert(part.drop_last() =~= s.subrange(start, end - 1));
}

/// Takes the character `c` away at both ends.
pub fn trim_char(chars: &[char], c: char) -> (r: String)
    ensures
        r@ == trimmed(chars@, c),
{
    let ghost all = chars@;
    let total = chars.len();
    let mut start: usize = 0;
    let mut end: usize = total;
    assert(all.subrange(0, end as int) =~= all);
    while start < end && chars[start] == c
        invariant
            start <= end == total == chars@.len(),
            chars@ == all,
            trimmed(all, c) == trimmed(all.subrange(start as int, end as int), c),
        decreases end - start,
    {
        proof {
            trimmed_in_front(all, start as int, end as int, c);
        }
        start += 1;
    }
    while start < end && chars[end - 1] == c
        invariant
            start <= end <= total == chars@.len(),
            chars@ == all,
            start < end ==> chars@[start as int] != c,
            trimmed(all, c) == trimmed(all.subrange(start as int, end as int), c),
        decreases end - start,
    {
        proof {
            trimmed_behind(all, start as int, end as int, c);
        }
        end -= 1;
    }
    string_from(chars, start, end)
}

/// Makes a text fit for a file name.
pub fn sanitize(s: &str) -> (r: String)
    ensures
        r@ == sanitized(s@),
{
    let chars = chars_of(s);
    let mut safe: Vec<char> = Vec::new();
    let ghost mapped = s@.map_values(|c: char| safe_char(c));
    let mut i: usize = 0;
    while i < chars.len()
        invariant
            i <= chars@.len(),
            chars@ == s@,
            mapped == s@.map_values(|c: char| safe_char(c)),
            safe@ =~= mapped.take(i as int),
        decreases chars@.len() - i,
    {
        safe.push(name_char(chars[i], is_alphanumeric(chars[i])));
        i += 1;
    }
    assert(safe@ =~= mapped);
    trim_char(&safe, '_')
}

/// Counts the characters at the beginning of `chars` that take at most `max` bytes.
fn count_fitting(chars: &Vec<char>, max: usize) -> (k: usize)
    ensures
        k <= chars@.len(),
        k == fitting(chars@, max as nat),
{
    let mut k: usize = 0;
    let mut left: usize = max;
    assert(chars@.take(0) =~= Seq::<char>::empty());
    while k < chars.len() && char_bytes(chars[k]) <= left
        invariant
            k <= chars@.len(),
            left <= max,
            byte_len(chars@.take(k as int)) + left == max,
        decreases chars@.len() - k,
    {
        proof {
            byte_len_of_next(chars@, k as int);
        }
        left = left - char_bytes(chars[k]);
        k += 1;
    }
    proof {
        if k < chars@.len() {
            byte_len_of_next(chars@, k as int);
        }
        fitting_is_longest(chars@, max as nat, k as int);
    }
    k
}

/// Cuts a text to `max` bytes between two characters, at a word boundary where that keeps more
/// than half.
pub fn shorten(s: String, max: usize) -> (r: String)
    ensures
        r@ == shortened(s@, max as nat),
{
    if s.as_str().as_bytes().len() <= max {
        return s;
    }
    let chars = chars_of(s.as_str());
    let k = count_fitting(&chars, max);
    let cut_text = string_from(&chars, 0, k);
    let ghost cut = s@.take(k as int);
    assert(cut_text@ =~= cut);
    let cut_chars = chars_of(cut_text.as_str());
    proof {
        last_index_is_last(cut, '_');
    }
    match rfind(&cut_chars, '_') {
        Some(pos) => {
            let head = string_from(&cut_chars, 0, pos);
            assert(head@ =~= cut.take(pos as int));
            if head.as_str().as_bytes().len() > max / 2 {
                return head;
            }
        },
        None => {},
    }
    cut_text
}

// ---------------------------------------------------------------------------
// Names
// ---------------------------------------------------------------------------

/// The hash of Bernstein, in which each byte is added to 33 times what came before.
pub open spec fn djb2(bytes: Seq<u8>) -> nat
    decreases bytes.len(),
{
    if bytes.len() == 0 {
        5381
    } else {
        (djb2(bytes.drop_last()) * 33 + bytes.last() as nat) % 0x1_0000_0000_0000_0000
    }
}

fn hash_text(s: &str) -> (h: u64)
    ensures
        h == djb2(encode_utf8(s@)),
{
    let bytes = s.as_bytes();
    let ghost all = encode_utf8(s@);
    let mut hash: u64 = 5381;
    let mut i: usize = 0;
    assert(all.take(0) =~= Seq::<u8>::empty());
    while i < bytes.len()
        invariant
            i <= bytes@.len(),
            bytes@ == all,
            hash == djb2(all.take(i as int)),
        decreases bytes@.len() - i,
    {
        assert(all.take(i + 1).drop_last() =~= all.take(i as int));
        hash = hash.wrapping_mul(33).wrapping_add(bytes[i] as u64);
        i += 1;
    }
    assert(all.take(i as int) =~= all);
    hash
}

/// The text that the hash of a name is taken of.
pub open spec fn hashed_text(meta: &ReportMeta, now_ms: u64) -> Seq<char> {
    meta.title@ + "|"@ + meta.site_address@ + "|"@ + meta.author@ + "|"@ + meta.date@ + "|"@
        + meta.notes@ + "|"@ + decimal(now_ms as nat)
}

/// The part of a name that a field gives: none where it is empty.
pub open spec fn field_part(field: Seq<char>, max: nat) -> Seq<Seq<char>> {
    if field.len() == 0 {
        Seq::empty()
    } else {
        seq![shortened(sanitized(field), max)]
    }
}

/// The parts of a name that the fields give.
pub open spec fn given_parts(meta: &ReportMeta) -> Seq<Seq<char>> {
    field_part(meta.title@, 30) + field_part(meta.site_address@, 30) + field_part(meta.author@, 20)
        + (if meta.date@.len() == 0 {
        Seq::empty()
    } else {
        seq![sanitized(meta.date@)]
    })
}

/// The name made of these parts, or of one that stands for all where there are none, of a hash
/// and of the extension.
pub open spec fn name_of(
    parts: Seq<Seq<char>>,
    hashed: Seq<char>,
    ext: Seq<char>,
) -> Seq<char> {
    join(
        if parts.len() == 0 {
            seq!["gridora-report"@]
        } else {
            parts
        },
        "-"@,
    ) + "-"@ + hex_tail(djb2(encode_utf8(hashed))) + "."@ + ext
}

/// The name of an export.
pub open spec fn export_name(meta: &ReportMeta, ext: Seq<char>, now_ms: u64) -> Seq<char> {
    name_of(given_parts(meta), hashed_text(meta, now_ms), ext)
}

fn push_part(parts: &mut Vec<String>, field: &str, max: usize)
    ensures
        texts(final(parts)@) == texts(old(parts)@) + field_part(field@, max as nat),
{
    let ghost before = texts(parts@);
    if !field.is_empty() {
        let part = shorten(sanitize(field), max);
        parts.push(part);
        assert(texts(parts@) =~= before.push(part@));
    }
    assert(texts(parts@) =~= before + field_part(field@, max as nat));
}

/// Puts a file name together: the parts, a hash of `hashed`, and the extension.
pub fn join_name(parts: Vec<String>, hashed: &str, ext: &str) -> (name: String)
    ensures
        name@ == name_of(texts(parts@), hashed@, ext@),
{
    let mut parts = parts;
    if parts.is_empty() {
        parts.push("gridora-report".to_string());
        assert(texts(parts@) =~= seq!["gridora-report"@]);
    }
    let mut name = join_strings(&parts, "-");
    name.append("-");
    name.append(hex_tail_text(hash_text(hashed)).as_str());
    name.append(".");
    name.append(ext);
    name
}

/// Builds the file name of an export from the fields of the report, a hash of them and of the
/// time in milliseconds, and the extension.
pub fn export_filename(meta: &ReportMeta, ext: &str, now_ms: u64) -> (name: String)
    ensures
        name@ == export_name(meta, ext@, now_ms),
{
    let mut parts: Vec<String> = Vec::new();
    assert(texts(parts@) =~= Seq::<Seq<char>>::empty());
    push_part(&mut parts, meta.title.as_str(), 30);
    push_part(&mut parts, meta.site_address.as_str(), 30);
    push_part(&mut parts, meta.author.as_str(), 20);
    let ghost three = texts(parts@);
    assert(three =~= field_part(meta.title@, 30) + field_part(meta.site_address@, 30) + field_part(
        meta.author@,
        20,
    ));
    if !meta.date.as_str().is_empty() {
        let part = sanitize(meta.date.as_str());
        parts.push(part);
        assert(texts(parts@) =~= three.push(part@));
    }
    assert(texts(parts@) =~= given_parts(meta));

    let mut hashed = meta.title.clone();
    hashed.append("|");
    hashed.append(meta.site_address.as_str());
    hashed.append("|");
    hashed.append(meta.author.as_str());
    hashed.append("|");
    hashed.append(meta.date.as_str());
    hashed.append("|");
    hashed.append(meta.notes.as_str());
    hashed.append("|");
    push_decimal(&mut hashed, now_ms);
    join_name(parts, hashed.as_str(), ext)
}

// ---------------------------------------------------------------------------
// Laws
// ---------------------------------------------------------------------------

/// A shortened part takes at most as many bytes as it may, has at most as many characters, and
/// is a beginning of the whole.
pub proof fn shortened_part_fits(s: Seq<char>, max: nat)
    ensures
        byte_len(shortened(s, max)) <= max,
        shortened(s, max).len() <= max,
        shortened(s, max).len() <= s.len(),
        shortened(s, max) == s.take(shortened(s, max).len() as int),
{
    assert(s.take(s.len() as int) =~= s);
    assert(s.take(0) =~= Seq::<char>::empty());
    if byte_len(s) > max {
        fitting_fits(s, max);
        let k = fitting(s, max) as int;
        let cut = s.take(k);
        last_index_is_last(cut, '_');
        if let Some(i) = last_index(cut, '_') {
            assert(cut.take(i) =~= s.take(i));
            byte_len_grows(s, i, k);
        }
        assert(shortened(s, max) =~= s.take(shortened(s, max).len() as int));
    }
    byte_len_grows(s, 0, shortened(s, max).len() as int);
}

/// A cut keeps as many characters as fit: one more would take too many bytes.
pub proof fn fitting_fits(s: Seq<char>, max: nat)
    ensures
        fitting(s, max) <= s.len(),
        byte_len(s.take(fitting(s, max) as int)) <= max,
        fitting(s, max) < s.len() ==> byte_len(s.take(fitting(s, max) as int + 1)) > max,
    decreases s.len(),
{
    assert(s.take(s.len() as int) =~= s);
    if s.len() > 0 && byte_len(s) > max {
        let rest = s.drop_last();
        fitting_fits(rest, max);
        let k = fitting(rest, max) as int;
        assert(rest.take(k) =~= s.take(k));
        if k < rest.len() {
            assert(rest.take(k + 1) =~= s.take(k + 1));
        }
    }
}

/// A sanitized text holds letters, digits, hyphens and underscores, and no underscore at
/// either end.
pub proof fn sanitized_text_is_safe(s: Seq<char>)
    ensures
        forall|i: int|
            0 <= i < sanitized(s).len() ==> alphanumeric(#[trigger] sanitized(s)[i])
                || sanitized(s)[i] == '-' || sanitized(s)[i] == '_',
        sanitized(s).len() > 0 ==> sanitized(s)[0] != '_' && sanitized(s).last() != '_',
{
    trimmed_is_inside(s.map_values(|c: char| safe_char(c)), '_');
}

/// In ASCII a part that is too long is cut to exactly as many characters as it may have, before
/// the word boundary is looked for.
pub proof fn ascii_part_is_cut_by_characters(s: Seq<char>, max: nat)
    requires
        is_ascii_chars(s),
    ensures
        fitting(s, max) == (if s.len() <= max {
            s.len()
        } else {
            max
        }),
{
    let k = if s.len() <= max {
        s.len() as int
    } else {
        max as int
    };
    ascii_bytes(s, k);
    if k < s.len() {
        ascii_bytes(s, k + 1);
    }
    fitting_is_longest(s, max, k);
}

/// Without any field the name is that of the program, the hash and the extension.
pub proof fn nameless_report_has_a_name(meta: &ReportMeta, ext: Seq<char>, now_ms: u64)
    requires
        meta.title@.len() == 0,
        meta.site_address@.len() == 0,
        meta.author@.len() == 0,
        meta.date@.len() == 0,
    ensures
        export_name(meta, ext, now_ms) == "gridora-report"@ + "-"@ + hex_tail(
            djb2(encode_utf8(hashed_text(meta, now_ms))),
        ) + "."@ + ext,
{
    assert(given_parts(meta) =~= Seq::<Seq<char>>::empty());
}

proof fn ascii_bytes(s: Seq<char>, k: int)
    requires
        0 <= k <= s.len(),
        is_ascii_chars(s),
    ensures
        byte_len(s.take(k)) == k,
{
    assert(is_ascii_chars(s.take(k)));
    is_ascii_chars_encode_utf8(s.take(k));
}

proof fn trimmed_is_inside(s: Seq<char>, c: char)
    ensures
        forall|i: int|
            0 <= i < trimmed(s, c).len() ==> exists|j: int|
                0 <= j < s.len() && s[j] == #[trigger] trimmed(s, c)[i],
        trimmed(s, c).len() > 0 ==> trimmed(s, c)[0] != c && trimmed(s, c).last() != c,
    decreases s.len(),
{
    if s.len() > 0 {
        let out = trimmed(s, c);
        if s[0] == c {
            trimmed_is_inside(s.drop_first(), c);
            assert forall|i: int| 0 <= i < out.len() implies exists|j: int|
                0 <= j < s.len() && s[j] == #[trigger] out[i] by {
                let j = choose|j: int| 0 <= j < s.drop_first().len() && s.drop_first()[j] == out[i];
                assert(s[j + 1] == out[i]);
            }
        } else if s.last() == c {
            trimmed_is_inside(s.drop_last(), c);
            assert forall|i: int| 0 <= i < out.len() implies exists|j: int|
                0 <= j < s.len() && s[j] == #[trigger] out[i] by {
                let j = choose|j: int| 0 <= j < s.drop_last().len() && s.drop_last()[j] == out[i];
                assert(s[j] == out[i]);
            }
        }
    }
}

/// A file name keeps letters, digits and hyphens, and an underscore stands for anything else,
/// but none at either end.
pub proof fn sanitized_keeps_the_middle(lead: Seq<char>, mid: Seq<char>, tail: Seq<char>)
    requires
        forall|i: int| 0 <= i < lead.len() ==> !alphanumeric(#[trigger] lead[i]) && lead[i] != '-',
        forall|i: int| 0 <= i < tail.len() ==> !alphanumeric(#[trigger] tail[i]) && tail[i] != '-',
        mid.len() > 0 ==> alphanumeric(mid[0]) || mid[0] == '-',
        mid.len() > 0 ==> alphanumeric(mid.last()) || mid.last() == '-',
    ensures
        sanitized(lead + mid + tail).len() == mid.len(),
        forall|i: int|
            0 <= i < mid.len() && (alphanumeric(mid[i]) || mid[i] == '-') ==> #[trigger] sanitized(
                lead + mid + tail,
            )[i] == mid[i],
        forall|i: int|
            0 <= i < mid.len() && !alphanumeric(mid[i]) && mid[i] != '-' ==> #[trigger] sanitized(
                lead + mid + tail,
            )[i] == '_',
{
    let safe = |c: char| safe_char(c);
    let all = lead + mid + tail;
    let mapped = all.map_values(safe);
    let inner = mid.map_values(safe);
    assert(mapped =~= lead.map_values(safe) + inner + tail.map_values(safe));
    trimmed_middle(lead.map_values(safe), inner, tail.map_values(safe), '_');
}

proof fn trimmed_middle(lead: Seq<char>, mid: Seq<char>, tail: Seq<char>, c: char)
    requires
        forall|i: int| 0 <= i < lead.len() ==> #[trigger] lead[i] == c,
        forall|i: int| 0 <= i < tail.len() ==> #[trigger] tail[i] == c,
        mid.len() > 0 ==> mid[0] != c && mid.last() != c,
    ensures
        trimmed(lead + mid + tail, c) == mid,
    decreases lead.len() + tail.len(),
{
    let s = lead + mid + tail;
    if lead.len() > 0 {
        assert(s[0] == c);
        assert(s.drop_first() =~= lead.drop_first() + mid + tail);
        trimmed_middle(lead.drop_first(), mid, tail, c);
    } else if tail.len() > 0 {
        if mid.len() == 0 {
            assert(s =~= tail);
            assert(s[0] == c);
            assert(s.drop_first() =~= lead + mid + tail.drop_first());
            trimmed_middle(lead, mid, tail.drop_first(), c);
        } else {
            assert(s[0] == mid[0]);
            assert(s.last() == tail.last());
            assert(s.drop_last() =~= lead + mid + tail.drop_last());
            trimmed_middle(lead, mid, tail.drop_last(), c);
        }
    } else {
        assert(s =~= mid);
    }
}

/// A part that fits is kept whole. Of one that does not, the longest beginning that fits is
/// taken; where that holds no underscore it stays, and else it loses its last word where more
/// than half of the room is still filled without it.
pub proof fn last_word_is_dropped(head: Seq<char>, word: Seq<char>, rest: Seq<char>, max: nat)
    requires
        byte_len(head + "_"@ + word) <= max,
        rest.len() > 0,
        byte_len(head + "_"@ + word + rest.take(1)) > max,
        forall|i: int| 0 <= i < word.len() ==> word[i] != '_',
    ensures
        2 * byte_len(head) > max ==> shortened(head + "_"@ + word + rest, max) == head,
        2 * byte_len(head) <= max ==> shortened(head + "_"@ + word + rest, max) == head + "_"@
            + word,
{
    reveal_strlit("_");
    let cut = head + "_"@ + word;
    let s = cut + rest;
    longest_beginning(cut, rest, max);
    last_index_is_last(cut, '_');
    assert(cut[head.len() as int] == '_');
    assert forall|i: int| head.len() < i < cut.len() implies cut[i] != '_' by {
        assert(cut[i] == word[i - head.len() - 1]);
    }
    assert(last_index(cut, '_') == Some(head.len() as int));
    assert(cut.take(head.len() as int) =~= head);
}

/// A part that is too long and whose beginning holds no underscore is cut to what fits; a part
/// that fits is kept.
pub proof fn single_word_is_cut(word: Seq<char>, rest: Seq<char>, max: nat)
    requires
        byte_len(word) <= max,
        forall|i: int| 0 <= i < word.len() ==> word[i] != '_',
    ensures
        shortened(word, max) == word,
        rest.len() > 0 && byte_len(word + rest.take(1)) > max ==> shortened(word + rest, max)
            == word,
{
    if rest.len() > 0 && byte_len(word + rest.take(1)) > max {
        longest_beginning(word, rest, max);
        last_index_is_last(word, '_');
    }
}

proof fn longest_beginning(cut: Seq<char>, rest: Seq<char>, max: nat)
    requires
        byte_len(cut) <= max,
        rest.len() > 0,
        byte_len(cut + rest.take(1)) > max,
    ensures
        byte_len(cut + rest) > max,
        fitting(cut + rest, max) == cut.len(),
        (cut + rest).take(cut.len() as int) == cut,
{
    let s = cut + rest;
    let k = cut.len() as int;
    assert(s.take(k) =~= cut);
    assert(s.take(k + 1) =~= cut + rest.take(1));
    assert(s.take(s.len() as int) =~= s);
    byte_len_grows(s, k + 1, s.len() as int);
    fitting_is_longest(s, max, k);
}

/// What a field adds to a file name: nothing where it is empty, else its part and a hyphen.
pub open spec fn shown_part(field: Seq<char>, part: Seq<char>) -> Seq<char> {
    if field.len() == 0 {
        Seq::empty()
    } else {
        part + "-"@
    }
}

/// A file name shows the fields that are filled in, each by itself and in this order: the title
/// and the address in at most 30 bytes each, the author in at most 20, and the whole date; then
/// six digits of the hash, and the extension.
pub proof fn name_shows_each_field(meta: &ReportMeta, ext: Seq<char>, now_ms: u64)
    requires
        meta.title@.len() > 0 || meta.site_address@.len() > 0 || meta.author@.len() > 0
            || meta.date@.len() > 0,
    ensures
        export_name(meta, ext, now_ms) == shown_part(
            meta.title@,
            shortened(sanitized(meta.title@), 30),
        ) + shown_part(meta.site_address@, shortened(sanitized(meta.site_address@), 30))
            + shown_part(meta.author@, shortened(sanitized(meta.author@), 20)) + shown_part(
            meta.date@,
            sanitized(meta.date@),
        ) + hex_tail(djb2(encode_utf8(hashed_text(meta, now_ms)))) + "."@ + ext,
{
    let a = field_part(meta.title@, 30);
    let b = field_part(meta.site_address@, 30);
    let c = field_part(meta.author@, 20);
    let d = given_parts(meta).skip((a + b + c).len() as int);
    let sep = "-"@;
    assert(d =~= if meta.date@.len() == 0 {
        Seq::empty()
    } else {
        seq![sanitized(meta.date@)]
    });
    assert(given_parts(meta) =~= a + b + c + d);
    let end = hex_tail(djb2(encode_utf8(hashed_text(meta, now_ms)))) + "."@ + ext;
    ended_of_joined(Seq::empty(), a, sep);
    ended_of_joined(a, b, sep);
    ended_of_joined(a + b, c, sep);
    ended_of_joined(a + b + c, d, sep);
    assert(Seq::<Seq<char>>::empty() + a =~= a);
    ended_of_one(shortened(sanitized(meta.title@), 30), sep);
    ended_of_one(shortened(sanitized(meta.site_address@), 30), sep);
    ended_of_one(shortened(sanitized(meta.author@), 20), sep);
    ended_of_one(sanitized(meta.date@), sep);
    let shown = shown_part(meta.title@, shortened(sanitized(meta.title@), 30)) + shown_part(
        meta.site_address@,
        shortened(sanitized(meta.site_address@), 30),
    ) + shown_part(meta.author@, shortened(sanitized(meta.author@), 20)) + shown_part(
        meta.date@,
        sanitized(meta.date@),
    );
    assert(ended(Seq::empty(), sep) =~= Seq::empty());
    assert(ended(given_parts(meta), sep) =~= shown);
    assert(given_parts(meta).len() > 0);
    let hash = hex_tail(djb2(encode_utf8(hashed_text(meta, now_ms))));
    assert(join(given_parts(meta), sep) + sep + hash + "."@ + ext =~= ended(
        given_parts(meta),
        sep,
    ) + hash + "."@ + ext);
}

/// The parts with a separator behind each.
spec fn ended(parts: Seq<Seq<char>>, sep: Seq<char>) -> Seq<char> {
    if parts.len() == 0 {
        Seq::empty()
    } else {
        join(parts, sep) + sep
    }
}

proof fn ended_of_one(part: Seq<char>, sep: Seq<char>)
    ensures
        ended(seq![part], sep) == part + sep,
{
}

proof fn ended_of_joined(a: Seq<Seq<char>>, b: Seq<Seq<char>>, sep: Seq<char>)
    ensures
        ended(a + b, sep) == ended(a, sep) + ended(b, sep),
{
    if a.len() == 0 {
        assert(a + b =~= b);
        assert(ended(a, sep) + ended(b, sep) =~= ended(b, sep));
    } else if b.len() == 0 {
        assert(a + b =~= a);
        assert(ended(a, sep) + ended(b, sep) =~= ended(a, sep));
    } else {
        joined_lists_meet_at_a_separator(a, b, sep, Seq::empty());
        assert(ended(a + b, sep) =~= ended(a, sep) + ended(b, sep));
    }
}

/// The hash takes in every byte: it is 33 times the hash of what came before and the byte, in 64
/// bits, so texts that differ in their last byte alone have different hashes.
pub proof fn hash_takes_in_every_byte(bytes: Seq<u8>, a: u8, b: u8)
    ensures
        djb2(bytes.push(a)) < 0x1_0000_0000_0000_0000,
        exists|carry: nat|
            djb2(bytes.push(a)) + #[trigger] (carry * 0x1_0000_0000_0000_0000) == 33 * djb2(bytes)
                + a as nat,
        a != b ==> djb2(bytes.push(a)) != djb2(bytes.push(b)),
        djb2(Seq::empty()) == 5381,
{
    assert(bytes.push(a).drop_last() =~= bytes);
    assert(bytes.push(b).drop_last() =~= bytes);
    let h = djb2(bytes) * 33;
    let carry = (h + a as nat) / 0x1_0000_0000_0000_0000;
    assert(djb2(bytes.push(a)) + carry * 0x1_0000_0000_0000_0000 == 33 * djb2(bytes) + a as nat);
}

/// The hash is taken of everything that tells two reports apart: where a single field or the time
/// differs, so does the hashed text. A bar stands behind each field.
pub proof fn hashed_text_tells_reports_apart(
    meta: &ReportMeta,
    other: &ReportMeta,
    now_ms: u64,
    later_ms: u64,
)
    ensures
        ({
            let one = hashed_text(meta, now_ms);
            let two = hashed_text(other, later_ms);
            let title = meta.title@ == other.title@;
            let site = meta.site_address@ == other.site_address@;
            let author = meta.author@ == other.author@;
            let date = meta.date@ == other.date@;
            let notes = meta.notes@ == other.notes@;
            let time = now_ms == later_ms;
            &&& !title && site && author && date && notes && time ==> one != two
            &&& title && !site && author && date && notes && time ==> one != two
            &&& title && site && !author && date && notes && time ==> one != two
            &&& title && site && author && !date && notes && time ==> one != two
            &&& title && site && author && date && !notes && time ==> one != two
            &&& title && site && author && date && notes && !time ==> one != two
        }),
        ({
            let text = hashed_text(meta, now_ms);
            let a = meta.title@.len() as int;
            let b = a + 1 + meta.site_address@.len();
            let c = b + 1 + meta.author@.len();
            let d = c + 1 + meta.date@.len();
            let e = d + 1 + meta.notes@.len();
            text[a] == '|' && text[b] == '|' && text[c] == '|' && text[d] == '|' && text[e] == '|'
        }),
{
    let bar = "|"@;
    reveal_strlit("|");
    decimals_differ(now_ms as nat, later_ms as nat);
    let one = meta.title@;
    let two = other.title@;
    one_side_differs(one, two, meta.site_address@, other.site_address@, bar);
    let one = one + bar + meta.site_address@;
    let two = two + bar + other.site_address@;
    one_side_differs(one, two, meta.author@, other.author@, bar);
    let one = one + bar + meta.author@;
    let two = two + bar + other.author@;
    one_side_differs(one, two, meta.date@, other.date@, bar);
    let one = one + bar + meta.date@;
    let two = two + bar + other.date@;
    one_side_differs(one, two, meta.notes@, other.notes@, bar);
    let one = one + bar + meta.notes@;
    let two = two + bar + other.notes@;
    one_side_differs(one, two, decimal(now_ms as nat), decimal(later_ms as nat), bar);
}

proof fn one_side_differs(a: Seq<char>, b: Seq<char>, x: Seq<char>, y: Seq<char>, bar: Seq<char>)
    ensures
        a != b && x == y || a == b && x != y ==> a + bar + x != b + bar + y,
{
    let none = Seq::<char>::empty();
    middle_tells_apart(none, a, b, bar + x);
    assert(none + a + (bar + x) =~= a + bar + x);
    assert(none + b + (bar + x) =~= b + bar + x);
    middle_tells_apart(a + bar, x, y, none);
    assert((a + bar) + x + none =~= a + bar + x);
    assert((a + bar) + y + none =~= a + bar + y);
}

} // verus!
