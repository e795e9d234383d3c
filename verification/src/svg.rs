//! SVG text processing: attribute lookup, number tokens, background-rectangle
//! removal and `viewBox` rewriting.
//!
//! Everything here works on the SVG text; the geometry itself (floating-point
//! bounds) is computed by the caller from the texts these functions return.
use vstd::prelude::*;
use crate::text::{
    chars_of, find, find_char_from, find_char_from_exec, find_from, find_from_exec, matches_at,
    push_char, push_range, string_of, string_of_range,
};

verus! {

// ───────────────────────────── attributes ─────────────────────────────

/// The value of the attribute introduced by `pat` (such as `width="`) and
/// closed by the quote `q`: the text between the first occurrence of `pat` and
/// the next `q`.
pub open spec fn quoted_attr(tag: Seq<char>, pat: Seq<char>, q: char) -> Option<Seq<char>> {
    match find(tag, pat) {
        Some(start) => match find_char_from(tag, q, start + pat.len()) {
            Some(end) => Some(tag.subrange(start + pat.len(), end)),
            None => None,
        },
        None => None,
    }
}

/// The value of attribute `name` in `tag`: first as `name="…"`, then as `name='…'`.
pub open spec fn attr_value(tag: Seq<char>, name: Seq<char>) -> Option<Seq<char>> {
    match quoted_attr(tag, name + seq!['=', '"'], '"') {
        Some(v) => Some(v),
        None => quoted_attr(tag, name + seq!['=', '\''], '\''),
    }
}

fn quoted_attr_exec(tag: &Vec<char>, pat: &Vec<char>, q: char) -> (res: Option<String>)
    ensures
        res matches Some(v) ==> quoted_attr(tag@, pat@, q) == Some(v@),
        res is None ==> quoted_attr(tag@, pat@, q) is None,
{
    let tag_len = tag.len();
    match find_from_exec(tag, pat, 0) {
        Some(start) => {
            proof {
                crate::text::lemma_find_from(tag@, pat@, 0);
                assert(matches_at(tag@, pat@, start as int));
                assert(start + pat@.len() <= tag_len);
            }
            let val_start = start + pat.len();
            match find_char_from_exec(tag, q, val_start) {
                Some(end) => {
                    proof {
                        crate::text::lemma_find_from(tag@, seq![q], val_start as int);
                    }
                    Some(string_of_range(tag, val_start, end))
                },
                None => None,
            }
        },
        None => None,
    }
}

fn attr_pattern(name: &Vec<char>, q: char) -> (res: Vec<char>)
    ensures
        res@ == name@ + seq!['=', q],
{
    let mut res = name.clone();
    res.push('=');
    res.push(q);
    assert(res@ =~= name@ + seq!['=', q]);
    res
}

/// Extracts the value of attribute `attr_name` from the text of an SVG tag.
pub fn extract_attr_str(tag: &str, attr_name: &str) -> (res: Option<String>)
    ensures
        res matches Some(v) ==> attr_value(tag@, attr_name@) == Some(v@),
        res is None ==> attr_value(tag@, attr_name@) is None,
{
    let t = chars_of(tag);
    let n = chars_of(attr_name);
    let double = attr_pattern(&n, '"');
    match quoted_attr_exec(&t, &double, '"') {
        Some(v) => Some(v),
        None => {
            let single = attr_pattern(&n, '\'');
            quoted_attr_exec(&t, &single, '\'')
        },
    }
}

/// Characters that may make up a number in SVG geometry.
pub open spec fn is_number_char(c: char) -> bool {
    ('0' <= c && c <= '9') || c == '.' || c == '-'
}

/// The longest prefix of `s` made of number characters.
pub open spec fn number_prefix(s: Seq<char>) -> Seq<char>
    decreases s.len(),
{
    if s.len() > 0 && is_number_char(s[0]) {
        seq![s[0]] + number_prefix(s.drop_first())
    } else {
        Seq::empty()
    }
}

/// The number text of attribute `name`: its value cut at the first character
/// that cannot be part of a number.
pub open spec fn attr_number_text(tag: Seq<char>, name: Seq<char>) -> Option<Seq<char>> {
    match attr_value(tag, name) {
        Some(v) => Some(number_prefix(v)),
        None => None,
    }
}

proof fn lemma_number_prefix_step(s: Seq<char>, i: int)
    requires
        0 <= i <= s.len(),
        forall|j: int| 0 <= j < i ==> is_number_char(#[trigger] s[j]),
    ensures
        number_prefix(s) == s.take(i) + number_prefix(s.skip(i)),
    decreases i,
{
    if i == 0 {
        assert(s.skip(0) == s);
        assert(s.take(0) + number_prefix(s) == number_prefix(s));
    } else {
        let t = s.drop_first();
        assert forall|j: int| 0 <= j < i - 1 implies is_number_char(#[trigger] t[j]) by {
            assert(t[j] == s[j + 1]);
        }
        lemma_number_prefix_step(t, i - 1);
        assert(t.skip(i - 1) == s.skip(i));
        assert(seq![s[0]] + t.take(i - 1) == s.take(i));
    }
}

/// The number text of attribute `attr_name` in `tag` (what is handed to the
/// number parser).
pub fn extract_attr_number_text(tag: &str, attr_name: &str) -> (res: Option<String>)
    ensures
        res matches Some(v) ==> attr_number_text(tag@, attr_name@) == Some(v@),
        res is None ==> attr_number_text(tag@, attr_name@) is None,
{
    match extract_attr_str(tag, attr_name) {
        Some(v) => {
            let c = chars_of(v.as_str());
            let mut i: usize = 0;
            while i < c.len() && ((c[i] >= '0' && c[i] <= '9') || c[i] == '.' || c[i] == '-')
                invariant
                    i <= c.len(),
                    forall|j: int| 0 <= j < i ==> is_number_char(#[trigger] c@[j]),
                decreases c.len() - i,
            {
                i += 1;
            }
            proof {
                lemma_number_prefix_step(c@, i as int);
                let r = c@.skip(i as int);
                assert(!(r.len() > 0 && is_number_char(r[0])));
                assert(number_prefix(r) == Seq::<char>::empty());
                assert(c@.take(i as int) + Seq::<char>::empty() == c@.take(i as int));
                assert(c@.subrange(0, i as int) == c@.take(i as int));
            }
            Some(string_of_range(&c, 0, i))
        },
        None => None,
    }
}

// ───────────────────────────── number tokens ─────────────────────────────

/// Whether the text gathered so far is handed to the number parser.
pub open spec fn is_token(cur: Seq<char>) -> bool {
    cur.len() > 0 && cur != seq!['-'] && cur != seq!['.']
}

/// The state after reading one more character: the tokens handed on so far
/// and the text being gathered. A separator hands on the gathered text only
/// when it is a token; a lone `-` or `.` is kept and continues with what follows.
pub open spec fn token_step(st: (Seq<Seq<char>>, Seq<char>), c: char) -> (Seq<Seq<char>>, Seq<char>) {
    if is_number_char(c) {
        (st.0, st.1.push(c))
    } else if is_token(st.1) {
        (st.0.push(st.1), Seq::empty())
    } else {
        st
    }
}

pub open spec fn token_scan(s: Seq<char>) -> (Seq<Seq<char>>, Seq<char>)
    decreases s.len(),
{
    if s.len() == 0 {
        (Seq::empty(), Seq::empty())
    } else {
        token_step(token_scan(s.drop_last()), s.last())
    }
}

/// The candidate number texts of `s`, in order.
pub open spec fn number_tokens(s: Seq<char>) -> Seq<Seq<char>> {
    let st = token_scan(s);
    if is_token(st.1) {
        st.0.push(st.1)
    } else {
        st.0
    }
}

fn is_token_exec(cur: &Vec<char>) -> (res: bool)
    ensures
        res == is_token(cur@),
{
    if cur.len() == 0 {
        return false;
    }
    if cur.len() == 1 && (cur[0] == '-' || cur[0] == '.') {
        assert(cur@ =~= seq![cur@[0]]);
        return false;
    }
    proof {
        if cur@ == seq!['-'] || cur@ == seq!['.'] {
            assert(cur@.len() == 1);
        }
    }
    true
}

/// Splits `s` into the texts that the number parser is given, as SVG path
/// data and point lists are read: runs of digits, `.` and `-`.
pub fn extract_number_tokens(s: &str) -> (res: Vec<String>)
    ensures
        res@.len() == number_tokens(s@).len(),
        forall|i: int| 0 <= i < res@.len() ==> #[trigger] res@[i]@ == number_tokens(s@)[i],
{
    let c = chars_of(s);
    let mut toks: Vec<String> = Vec::new();
    let mut cur: Vec<char> = Vec::new();
    let mut i: usize = 0;
    while i < c.len()
        invariant
            c@ == s@,
            i <= c.len(),
            toks@.len() == token_scan(c@.take(i as int)).0.len(),
            forall|j: int| 0 <= j < toks@.len() ==> #[trigger] toks@[j]@ == token_scan(c@.take(i as int)).0[j],
            cur@ == token_scan(c@.take(i as int)).1,
        decreases c.len() - i,
    {
        let ch = c[i];
        proof {
            assert(c@.take(i + 1).drop_last() == c@.take(i as int));
            assert(c@.take(i + 1).last() == ch);
        }
        if (ch >= '0' && ch <= '9') || ch == '.' || ch == '-' {
            cur.push(ch);
        } else if is_token_exec(&cur) {
            toks.push(string_of(&cur));
            cur = Vec::new();
        }
        i += 1;
    }
    assert(c@.take(c@.len() as int) == c@);
    if is_token_exec(&cur) {
        toks.push(string_of(&cur));
    }
    toks
}

/// A `<rect>` tag that spans the whole canvas by percentage.
pub open spec fn is_percent_background(tag: Seq<char>) -> bool {
    find(tag, "width=\"100%\""@) is Some || find(tag, "width='100%'"@) is Some
}

/// Whether `tag` sets its width to `100%` (a full-canvas background).
pub fn is_percent_background_exec(tag: &str) -> (res: bool)
    ensures
        res == is_percent_background(tag@),
{
    let t = chars_of(tag);
    let a = chars_of("width=\"100%\"");
    let b = chars_of("width='100%'");
    find_from_exec(&t, &a, 0).is_some() || find_from_exec(&t, &b, 0).is_some()
}

} // verus!

verus! {

// ───────────────────────────── tag pieces ─────────────────────────────

/// `str::split(c)`: the pieces of `s` between occurrences of `c`.
pub open spec fn split_on(s: Seq<char>, c: char) -> Seq<Seq<char>>
    decreases s.len(),
{
    if s.len() == 0 {
        seq![Seq::empty()]
    } else {
        let p = split_on(s.drop_last(), c);
        if s.last() == c {
            p.push(Seq::empty())
        } else {
            p.update(p.len() - 1, p.last().push(s.last()))
        }
    }
}

pub proof fn lemma_split_on_nonempty(s: Seq<char>, c: char)
    ensures
        split_on(s, c).len() >= 1,
    decreases s.len(),
{
    if s.len() > 0 {
        lemma_split_on_nonempty(s.drop_last(), c);
    }
}

/// The character sequences held by a vector of character vectors.
pub open spec fn char_views(v: Seq<Vec<char>>) -> Seq<Seq<char>> {
    v.map_values(|x: Vec<char>| x@)
}

/// The pieces of `s` between occurrences of `c`.
pub fn split_on_exec(s: &Vec<char>, c: char) -> (res: Vec<Vec<char>>)
    ensures
        char_views(res@) == split_on(s@, c),
{
    let mut pieces: Vec<Vec<char>> = Vec::new();
    let mut cur: Vec<char> = Vec::new();
    let mut i: usize = 0;
    assert(s@.take(0) =~= Seq::<char>::empty());
    assert(char_views(pieces@).push(cur@) =~= split_on(s@.take(0), c));
    while i < s.len()
        invariant
            i <= s.len(),
            char_views(pieces@).push(cur@) == split_on(s@.take(i as int), c),
        decreases s.len() - i,
    {
        let ch = s[i];
        let ghost before = char_views(pieces@);
        proof {
            assert(s@.take(i + 1).drop_last() == s@.take(i as int));
            assert(s@.take(i + 1).last() == ch);
        }
        if ch == c {
            pieces.push(cur);
            cur = Vec::new();
            assert(char_views(pieces@) =~= before.push(split_on(s@.take(i as int), c).last()));
            assert(char_views(pieces@).push(cur@) =~= split_on(s@.take(i + 1), c));
        } else {
            cur.push(ch);
            assert(char_views(pieces@).push(cur@) =~= split_on(s@.take(i + 1), c));
        }
        i += 1;
    }
    assert(s@.take(s@.len() as int) == s@);
    pieces.push(cur);
    pieces
}

/// The index of the first piece at or after `i` that opens the `<svg>` element.
pub open spec fn svg_piece_from(pieces: Seq<Seq<char>>, i: int) -> Option<int>
    decreases pieces.len() - i,
{
    if i < 0 || i >= pieces.len() {
        None
    } else if crate::text::starts_with(pieces[i], "svg"@) || crate::text::starts_with(pieces[i], "SVG"@) {
        Some(i)
    } else {
        svg_piece_from(pieces, i + 1)
    }
}

/// The text of the `viewBox` attribute of the document's `<svg>` tag.
pub open spec fn svg_viewbox_text(svg: Seq<char>) -> Option<Seq<char>> {
    let pieces = split_on(svg, '<');
    match svg_piece_from(pieces, 0) {
        Some(i) => attr_value(pieces[i], "viewBox"@),
        None => None,
    }
}

/// Finds the `<svg>` tag of a document and returns the text of its `viewBox`
/// attribute (the numbers in it are read by the caller).
pub fn parse_svg_viewbox_text(svg: &str) -> (res: Option<String>)
    ensures
        res matches Some(v) ==> svg_viewbox_text(svg@) == Some(v@),
        res is None ==> svg_viewbox_text(svg@) is None,
{
    let s = chars_of(svg);
    let pieces = split_on_exec(&s, '<');
    let lower = chars_of("svg");
    let upper = chars_of("SVG");
    let mut i: usize = 0;
    while i < pieces.len()
        invariant
            i <= pieces.len(),
            char_views(pieces@) == split_on(s@, '<'),
            s@ == svg@,
            lower@ == "svg"@,
            upper@ == "SVG"@,
            svg_piece_from(char_views(pieces@), 0) == svg_piece_from(char_views(pieces@), i as int),
        decreases pieces.len() - i,
    {
        assert(char_views(pieces@)[i as int] == pieces@[i as int]@);
        if crate::text::starts_with_exec(&pieces[i], &lower) || crate::text::starts_with_exec(
            &pieces[i],
            &upper,
        ) {
            let tag = string_of(&pieces[i]);
            return extract_attr_str(tag.as_str(), "viewBox");
        }
        i += 1;
    }
    None
}

} // verus!

verus! {

// ───────────────────────────── geometry tags ─────────────────────────────

/// The first white-space-delimited word of `t`.
pub open spec fn word_prefix(t: Seq<char>) -> Seq<char>
    decreases t.len(),
{
    if t.len() > 0 && !crate::text::is_white_space(t[0]) {
        seq![t[0]] + word_prefix(t.drop_first())
    } else {
        Seq::empty()
    }
}

/// A trimmed piece of SVG text that opens an element whose coordinates count
/// towards the drawing's bounds: not empty, not a declaration, comment or
/// closing tag, and not the `<svg>` element itself.
pub open spec fn is_geometry_tag(t: Seq<char>) -> bool {
    &&& t.len() > 0
    &&& t[0] != '?'
    &&& t[0] != '!'
    &&& t[0] != '/'
    &&& !crate::text::starts_with(crate::text::lowercase(word_prefix(t)), "svg"@)
}

/// The trimmed pieces that are geometry tags, in order.
pub open spec fn geometry_tags(pieces: Seq<Seq<char>>) -> Seq<Seq<char>>
    decreases pieces.len(),
{
    if pieces.len() == 0 {
        Seq::empty()
    } else {
        let rest = geometry_tags(pieces.drop_last());
        let t = crate::text::trim(pieces.last());
        if is_geometry_tag(t) {
            rest.push(t)
        } else {
            rest
        }
    }
}

/// The tags that bound the drawing are exactly the trimmed `<`-pieces that are
/// non-empty, do not start with `?`, `!` or `/`, and whose lower-cased element
/// name does not start with `svg`: each of them is kept (so every other
/// element, such as a `circle` pad or a `path`, counts), and nothing else is.
pub proof fn lemma_geometry_tags_members(pieces: Seq<Seq<char>>)
    ensures
        forall|i: int|
            0 <= i < pieces.len() && {
                let t = crate::text::trim(#[trigger] pieces[i]);
                &&& t.len() > 0
                &&& t[0] != '?'
                &&& t[0] != '!'
                &&& t[0] != '/'
                &&& !crate::text::starts_with(crate::text::lowercase(word_prefix(t)), "svg"@)
            } ==> geometry_tags(pieces).contains(crate::text::trim(pieces[i])),
        forall|j: int|
            0 <= j < geometry_tags(pieces).len() ==> {
                let t = #[trigger] geometry_tags(pieces)[j];
                &&& t.len() > 0
                &&& t[0] != '?'
                &&& t[0] != '!'
                &&& t[0] != '/'
                &&& !crate::text::starts_with(crate::text::lowercase(word_prefix(t)), "svg"@)
                &&& exists|i: int| 0 <= i < pieces.len() && t == crate::text::trim(pieces[i])
            },
    decreases pieces.len(),
{
    if pieces.len() > 0 {
        let init = pieces.drop_last();
        lemma_geometry_tags_members(init);
        let rest = geometry_tags(init);
        let g = geometry_tags(pieces);
        let last = crate::text::trim(pieces.last());
        assert forall|i: int|
            0 <= i < pieces.len() && {
                let t = crate::text::trim(#[trigger] pieces[i]);
                &&& t.len() > 0
                &&& t[0] != '?'
                &&& t[0] != '!'
                &&& t[0] != '/'
                &&& !crate::text::starts_with(crate::text::lowercase(word_prefix(t)), "svg"@)
            } implies g.contains(crate::text::trim(pieces[i])) by {
            if i < pieces.len() - 1 {
                assert(pieces[i] == init[i]);
                assert(rest.contains(crate::text::trim(init[i])));
                let k = choose|k: int| 0 <= k < rest.len() && rest[k] == crate::text::trim(init[i]);
                if is_geometry_tag(last) {
                    assert(g[k] == rest[k]);
                }
            } else {
                assert(is_geometry_tag(last));
                assert(g[g.len() - 1] == last);
            }
        }
        assert forall|j: int| 0 <= j < g.len() implies {
            let t = #[trigger] g[j];
            &&& t.len() > 0
            &&& t[0] != '?'
            &&& t[0] != '!'
            &&& t[0] != '/'
            &&& !crate::text::starts_with(crate::text::lowercase(word_prefix(t)), "svg"@)
            &&& exists|i: int| 0 <= i < pieces.len() && t == crate::text::trim(pieces[i])
        } by {
            if j < rest.len() {
                assert(g[j] == rest[j]);
                let t = rest[j];
                let i = choose|i: int| 0 <= i < init.len() && t == crate::text::trim(init[i]);
                assert(pieces[i] == init[i]);
            } else {
                assert(g[j] == last);
                assert(pieces[pieces.len() - 1] == pieces.last());
            }
        }
    }
}

proof fn lemma_word_prefix_step(s: Seq<char>, i: int)
    requires
        0 <= i <= s.len(),
        forall|j: int| 0 <= j < i ==> !crate::text::is_white_space(#[trigger] s[j]),
    ensures
        word_prefix(s) == s.take(i) + word_prefix(s.skip(i)),
    decreases i,
{
    if i == 0 {
        assert(s.skip(0) == s);
        assert(s.take(0) + word_prefix(s) == word_prefix(s));
    } else {
        let t = s.drop_first();
        assert forall|j: int| 0 <= j < i - 1 implies !crate::text::is_white_space(#[trigger] t[j]) by {
            assert(t[j] == s[j + 1]);
        }
        lemma_word_prefix_step(t, i - 1);
        assert(t.skip(i - 1) == s.skip(i));
        assert(seq![s[0]] + t.take(i - 1) == s.take(i));
    }
}

fn word_prefix_exec(t: &Vec<char>) -> (res: Vec<char>)
    ensures
        res@ == word_prefix(t@),
{
    let mut i: usize = 0;
    while i < t.len() && !crate::text::is_white_space_exec(t[i])
        invariant
            i <= t.len(),
            forall|j: int| 0 <= j < i ==> !crate::text::is_white_space(#[trigger] t@[j]),
        decreases t.len() - i,
    {
        i += 1;
    }
    proof {
        lemma_word_prefix_step(t@, i as int);
        assert(word_prefix(t@.skip(i as int)) == Seq::<char>::empty());
        assert(t@.take(i as int) + Seq::<char>::empty() == t@.take(i as int));
    }
    let mut res: Vec<char> = Vec::new();
    let mut k: usize = 0;
    while k < i
        invariant
            k <= i <= t.len(),
            res@ == t@.take(k as int),
        decreases i - k,
    {
        res.push(t[k]);
        assert(t@.take(k + 1) == t@.take(k as int).push(t@[k as int]));
        k += 1;
    }
    res
}

fn is_geometry_tag_exec(t: &Vec<char>) -> (res: bool)
    ensures
        res == is_geometry_tag(t@),
{
    if t.len() == 0 || t[0] == '?' || t[0] == '!' || t[0] == '/' {
        return false;
    }
    let word = string_of(&word_prefix_exec(t));
    let name = crate::text::to_lowercase(word.as_str());
    let name_chars = chars_of(name.as_str());
    let svg = chars_of("svg");
    !crate::text::starts_with_exec(&name_chars, &svg)
}

/// The tags of an SVG document whose coordinates bound the drawing: the
/// trimmed pieces between `<` characters that are geometry tags, in order.
pub fn svg_geometry_tags(content: &str) -> (res: Vec<String>)
    ensures
        res@.len() == geometry_tags(split_on(content@, '<')).len(),
        forall|i: int| 0 <= i < res@.len() ==> #[trigger] res@[i]@ == geometry_tags(
            split_on(content@, '<'),
        )[i],
{
    let s = chars_of(content);
    let pieces = split_on_exec(&s, '<');
    let ghost ps = split_on(s@, '<');
    let mut res: Vec<String> = Vec::new();
    let mut i: usize = 0;
    assert(ps.take(0) =~= Seq::<Seq<char>>::empty());
    while i < pieces.len()
        invariant
            i <= pieces.len(),
            char_views(pieces@) == ps,
            ps == split_on(content@, '<'),
            res@.len() == geometry_tags(ps.take(i as int)).len(),
            forall|j: int| 0 <= j < res@.len() ==> #[trigger] res@[j]@ == geometry_tags(
                ps.take(i as int),
            )[j],
        decreases pieces.len() - i,
    {
        let t = crate::text::trim_exec(&pieces[i]);
        proof {
            assert(ps.take(i + 1).drop_last() == ps.take(i as int));
            assert(ps.take(i + 1).last() == pieces@[i as int]@);
        }
        if is_geometry_tag_exec(&t) {
            res.push(string_of(&t));
        }
        i += 1;
    }
    assert(ps.take(ps.len() as int) == ps);
    res
}

// ───────────────────────────── background rectangles ─────────────────────────────

/// Whether the `k`-th rectangle tag is to be dropped.
pub open spec fn dropped(remove: Seq<bool>, k: int) -> bool {
    0 <= k < remove.len() && remove[k]
}

/// The text from `pos` on, with each complete `<rect …>` tag kept or dropped
/// as `remove` says (counting tags from `k`). A `<rect` with no closing `>`
/// ends the scan and is kept with everything after it.
pub open spec fn rect_strip(s: Seq<char>, pos: int, remove: Seq<bool>, k: int) -> Seq<char>
    decreases s.len() + 1 - pos,
{
    if pos < 0 || pos > s.len() {
        Seq::empty()
    } else {
        match find_from(s, "<rect"@, pos) {
            None => s.subrange(pos, s.len() as int),
            Some(st) => match find_char_from(s, '>', st) {
                None => s.subrange(pos, s.len() as int),
                Some(e) => {
                    proof {
                        crate::text::lemma_find_from(s, "<rect"@, pos);
                        crate::text::lemma_find_from(s, seq!['>'], st);
                    }
                    s.subrange(pos, st) + (if dropped(remove, k) {
                        Seq::empty()
                    } else {
                        s.subrange(st, e + 1)
                    }) + rect_strip(s, e + 1, remove, k + 1)
                },
            },
        }
    }
}

/// The complete `<rect …>` tags found from `pos` on, in order.
pub open spec fn rect_tags_from(s: Seq<char>, pos: int) -> Seq<Seq<char>>
    decreases s.len() + 1 - pos,
{
    if pos < 0 || pos > s.len() {
        Seq::empty()
    } else {
        match find_from(s, "<rect"@, pos) {
            None => Seq::empty(),
            Some(st) => match find_char_from(s, '>', st) {
                None => Seq::empty(),
                Some(e) => {
                    proof {
                        crate::text::lemma_find_from(s, "<rect"@, pos);
                        crate::text::lemma_find_from(s, seq!['>'], st);
                    }
                    seq![s.subrange(st, e + 1)] + rect_tags_from(s, e + 1)
                },
            },
        }
    }
}

/// Dropping no rectangle leaves the text unchanged.
pub proof fn lemma_rect_strip_keep_all(s: Seq<char>, pos: int, k: int)
    requires
        0 <= pos <= s.len(),
    ensures
        rect_strip(s, pos, Seq::empty(), k) == s.subrange(pos, s.len() as int),
    decreases s.len() + 1 - pos,
{
    match find_from(s, "<rect"@, pos) {
        None => {},
        Some(st) => match find_char_from(s, '>', st) {
            None => {},
            Some(e) => {
                crate::text::lemma_find_from(s, "<rect"@, pos);
                crate::text::lemma_find_from(s, seq!['>'], st);
                lemma_rect_strip_keep_all(s, e + 1, k + 1);
                assert(s.subrange(pos, st) + s.subrange(st, e + 1) + s.subrange(e + 1, s.len() as int)
                    =~= s.subrange(pos, s.len() as int));
            },
        },
    }
}

/// The complete `<rect …>` tags of an SVG document, in the order in which the
/// background-removal scan meets them.
pub fn svg_rect_tags(svg: &str) -> (res: Vec<String>)
    ensures
        res@.len() == rect_tags_from(svg@, 0).len(),
        forall|i: int| 0 <= i < res@.len() ==> #[trigger] res@[i]@ == rect_tags_from(svg@, 0)[i],
{
    let s = chars_of(svg);
    let rect = chars_of("<rect");
    let mut res: Vec<String> = Vec::new();
    let mut pos: usize = 0;
    loop
        invariant_except_break
            s@ == svg@,
            rect@ == "<rect"@,
            pos <= s.len(),
            rect_tags_from(s@, 0) == char_seqs(res@) + rect_tags_from(s@, pos as int),
        ensures
            rect_tags_from(svg@, 0) == char_seqs(res@),
        decreases s.len() + 1 - pos,
    {
        match find_from_exec(&s, &rect, pos) {
            None => {
                assert(char_seqs(res@) + Seq::<Seq<char>>::empty() == char_seqs(res@));
                break;
            },
            Some(st) => {
                proof {
                    crate::text::lemma_find_from(s@, "<rect"@, pos as int);
                }
                match find_char_from_exec(&s, '>', st) {
                    None => {
                        assert(char_seqs(res@) + Seq::<Seq<char>>::empty() == char_seqs(res@));
                        break;
                    },
                    Some(e) => {
                        proof {
                            crate::text::lemma_find_from(s@, seq!['>'], st as int);
                        }
                        let ghost before = char_seqs(res@);
                        res.push(string_of_range(&s, st, e + 1));
                        assert(char_seqs(res@) =~= before.push(s@.subrange(st as int, e + 1)));
                        assert(before + rect_tags_from(s@, pos as int) =~= char_seqs(res@)
                            + rect_tags_from(s@, e + 1));
                        pos = e + 1;
                    },
                }
            },
        }
    }
    assert(res@.len() == char_seqs(res@).len());
    assert forall|i: int| 0 <= i < res@.len() implies #[trigger] res@[i]@ == rect_tags_from(svg@, 0)[i] by {
        assert(char_seqs(res@)[i] == res@[i]@);
    }
    res
}

/// The character sequences held by a vector of strings.
pub open spec fn char_seqs(v: Seq<String>) -> Seq<Seq<char>> {
    v.map_values(|x: String| x@)
}

/// Removes from an SVG document each complete `<rect …>` tag whose flag in
/// `remove` is set (the `k`-th tag met by the scan has flag `remove[k]`; tags
/// past the end of `remove` are kept).
pub fn remove_rect_tags(svg: &str, remove: &Vec<bool>) -> (res: String)
    ensures
        res@ == rect_strip(svg@, 0, remove@, 0),
{
    let s = chars_of(svg);
    let rect = chars_of("<rect");
    let mut out = String::new();
    let mut pos: usize = 0;
    let mut k: usize = 0;
    loop
        invariant_except_break
            s@ == svg@,
            rect@ == "<rect"@,
            pos <= s.len(),
            k <= pos,
            rect_strip(s@, 0, remove@, 0) == out@ + rect_strip(s@, pos as int, remove@, k as int),
        ensures
            out@ == rect_strip(svg@, 0, remove@, 0),
        decreases s.len() + 1 - pos,
    {
        match find_from_exec(&s, &rect, pos) {
            None => {
                push_range(&mut out, &s, pos, s.len());
                break;
            },
            Some(st) => {
                proof {
                    crate::text::lemma_find_from(s@, "<rect"@, pos as int);
                }
                match find_char_from_exec(&s, '>', st) {
                    None => {
                        push_range(&mut out, &s, pos, s.len());
                        break;
                    },
                    Some(e) => {
                        proof {
                            crate::text::lemma_find_from(s@, seq!['>'], st as int);
                        }
                        let ghost before = out@;
                        push_range(&mut out, &s, pos, st);
                        let drop = k < remove.len() && remove[k];
                        if !drop {
                            push_range(&mut out, &s, st, e + 1);
                        }
                        proof {
                            let kept = if dropped(remove@, k as int) {
                                Seq::<char>::empty()
                            } else {
                                s@.subrange(st as int, e + 1)
                            };
                            assert(out@ =~= before + s@.subrange(pos as int, st as int) + kept);
                        }
                        pos = e + 1;
                        k += 1;
                    },
                }
            },
        }
    }
    out
}

// ───────────────────────────── viewBox rewriting ─────────────────────────────

/// `c` with `vb` placed as the value of its first `viewBox` attribute, or,
/// when there is none, added to the `<svg` tag.
pub open spec fn with_viewbox(c: Seq<char>, vb: Seq<char>) -> Seq<char> {
    match find(c, "viewBox=\""@) {
        Some(st) => match find_char_from(c, '"', st + 9) {
            Some(e) => c.subrange(0, st + 9) + vb + c.subrange(e, c.len() as int),
            None => c,
        },
        None => match find(c, "viewBox='"@) {
            Some(st) => match find_char_from(c, '\'', st + 9) {
                Some(e) => c.subrange(0, st + 9) + vb + c.subrange(e, c.len() as int),
                None => c,
            },
            None => match find(c, "<svg"@) {
                Some(p) => match find_char_from(c, '>', p) {
                    Some(q) => c.subrange(0, q) + " viewBox=\""@ + vb + "\""@ + c.subrange(
                        q,
                        c.len() as int,
                    ),
                    None => c,
                },
                None => c,
            },
        },
    }
}

fn splice(c: &Vec<char>, lo: usize, hi: usize, middle: &str) -> (res: String)
    requires
        lo <= hi <= c.len(),
    ensures
        res@ == c@.subrange(0, lo as int) + middle@ + c@.subrange(hi as int, c.len() as int),
{
    let mut out = String::new();
    push_range(&mut out, c, 0, lo);
    out.append(middle);
    push_range(&mut out, c, hi, c.len());
    out
}

/// Rewrites the document's `viewBox` to `new_vb`: replaces the value of the
/// first `viewBox="…"` (or else `viewBox='…'`) attribute, or else adds
/// ` viewBox="new_vb"` to the `<svg` tag.
pub fn set_svg_viewbox(content: &str, new_vb: &str) -> (res: String)
    ensures
        res@ == with_viewbox(content@, new_vb@),
{
    let c = chars_of(content);
    let dq = chars_of("viewBox=\"");
    let sq = chars_of("viewBox='");
    let open = chars_of("<svg");
    proof {
        reveal_strlit("viewBox=\"");
        reveal_strlit("viewBox='");
    }
    match find_from_exec(&c, &dq, 0) {
        Some(st) => {
            proof {
                crate::text::lemma_find_from(c@, dq@, 0);
                assert(matches_at(c@, dq@, st as int));
                assert(dq@.len() == 9);
                assert(st + 9 <= c.len());
            }
            match find_char_from_exec(&c, '"', st + 9) {
                Some(e) => {
                    proof {
                        crate::text::lemma_find_from(c@, seq!['"'], st + 9);
                    }
                    splice(&c, st + 9, e, new_vb)
                },
                None => String::from_str(content),
            }
        },
        None => match find_from_exec(&c, &sq, 0) {
            Some(st) => {
                proof {
                    crate::text::lemma_find_from(c@, sq@, 0);
                    assert(matches_at(c@, sq@, st as int));
                    assert(sq@.len() == 9);
                    assert(st + 9 <= c.len());
                }
                match find_char_from_exec(&c, '\'', st + 9) {
                    Some(e) => {
                        proof {
                            crate::text::lemma_find_from(c@, seq!['\''], st + 9);
                        }
                        splice(&c, st + 9, e, new_vb)
                    },
                    None => String::from_str(content),
                }
            },
            None => match find_from_exec(&c, &open, 0) {
                Some(p) => match find_char_from_exec(&c, '>', p) {
                    Some(q) => {
                        proof {
                            crate::text::lemma_find_from(c@, seq!['>'], p as int);
                        }
                        let mut middle = String::from_str(" viewBox=\"");
                        middle.append(new_vb);
                        middle.append("\"");
                        let r = splice(&c, q, q, middle.as_str());
                        assert(r@ =~= c@.subrange(0, q as int) + " viewBox=\""@ + new_vb@ + "\""@
                            + c@.subrange(q as int, c@.len() as int));
                        r
                    },
                    None => String::from_str(content),
                },
                None => String::from_str(content),
            },
        },
    }
}

} // verus!
