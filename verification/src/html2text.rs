//! Turning the HTML of a page into text for a terminal.
use vstd::prelude::*;
use crate::text::{
    advance, advance_exec, lemma_advance, utf8_len_prefix, append_chars, chars_of, find, find_exec, starts_with, starts_with_exec,
    string_of, utf8_len, };
use crate::unicode::{ascii_lower, is_ascii_text, lowercase, to_lowercase};
use crate::text::{lemma_replace_no_amp, lemma_replace_one, lemma_replace_other, contains, utf8_width, decimal, decimal_exec, matches_at, replace, str_replace, str_trim, trim};
use crate::pattern::{
    regex_find_all, regex_replace_all, regex_split, spec_regex_find_all, spec_regex_replace_all, spec_regex_split,
    strings_view,
};

verus! {

// ---------------------------------------------------------------------------
// Removing tag regions
// ---------------------------------------------------------------------------

/// Number of bytes a region that opens at character `k` of `t` covers, up to
/// the end of the closing tag: the byte length of the lowercased text before
/// the first lowercased closing tag, plus the byte length of the closing tag.
pub open spec fn region_bytes(t: Seq<char>, k: int, close: Seq<char>) -> int {
    let low = lowercase(t.skip(k));
    (utf8_len(low.take(find(low, lowercase(close)).unwrap())) + utf8_len(close)) as int
}

/// A region opens at character `k`: the lowercased rest of the text begins
/// with the lowercased opening tag and holds the lowercased closing tag.
pub open spec fn region_at(t: Seq<char>, k: int, open: Seq<char>, close: Seq<char>) -> bool {
    let low = lowercase(t.skip(k));
    starts_with(low, lowercase(open)) && find(low, lowercase(close)) is Some
}

/// What is left of `t` from character `k` on once every region from a
/// case-insensitive `open` to the next case-insensitive `close` is removed,
/// scanning from the left. Positions move by bytes as the text's UTF-8
/// encoding counts them. `None` where the scan would land inside a character
/// or would stand still (an empty region).
pub open spec fn strip_from(t: Seq<char>, k: int, open: Seq<char>, close: Seq<char>) -> Option<Seq<char>>
    decreases t.len() - k,
{
    if k < 0 || k >= t.len() {
        Some(seq![])
    } else if region_at(t, k, open, close) {
        let off = region_bytes(t, k, close);
        if off <= 0 {
            None
        } else {
            match advance(t, k, off) {
                None => None,
                Some(None) => Some(seq![]),
                Some(Some(j)) => {
                    proof {
                        lemma_advance(t, k, off);
                    }
                    strip_from(t, j, open, close)
                },
            }
        }
    } else {
        match strip_from(t, k + 1, open, close) {
            Some(r) => Some(seq![t[k]] + r),
            None => None,
        }
    }
}

/// `text` without the regions that run from a case-insensitive `open_tag` to
/// the next case-insensitive `close_tag`; `None` where the scan cannot go on.
pub open spec fn spec_strip_tag_regions(text: Seq<char>, open_tag: Seq<char>, close_tag: Seq<char>) -> Option<Seq<char>> {
    strip_from(text, 0, open_tag, close_tag)
}

pub open spec fn prepend(r: Seq<char>, o: Option<Seq<char>>) -> Option<Seq<char>> {
    match o {
        Some(x) => Some(r + x),
        None => None,
    }
}

/// The scan that removes tag regions; `None` exactly where it would stop
/// inside a character or would never end.
fn strip_scan(text: &str, open_tag: &str, close_tag: &str) -> (r: Option<String>)
    ensures
        match r {
            Some(s) => spec_strip_tag_regions(text@, open_tag@, close_tag@) == Some(s@),
            None => spec_strip_tag_regions(text@, open_tag@, close_tag@) is None,
        },
{
    let t = chars_of(text);
    let open = chars_of(open_tag);
    let close = chars_of(close_tag);
    let open_l = to_lowercase(open.as_slice());
    let close_l = to_lowercase(close.as_slice());
    let close_bytes = utf8_len_prefix(close.as_slice(), close.len());
    assert(close@.take(close@.len() as int) =~= close@);
    let mut res: Vec<char> = Vec::new();
    let mut k: usize = 0;
    while k < t.len()
        invariant
            k <= t@.len(),
            t@ == text@,
            open_l@ == lowercase(open_tag@),
            close_l@ == lowercase(close_tag@),
            close@ == close_tag@,
            close_bytes == utf8_len(close_tag@),
            close_bytes <= 4 * close@.len(),
            close@.len() <= usize::MAX,
            strip_from(t@, 0, open_tag@, close_tag@) == prepend(res@, strip_from(t@, k as int, open_tag@, close_tag@)),
        decreases t.len() - k,
    {
        let rest = crate::text::skip_chars(t.as_slice(), k);
        let low = to_lowercase(rest.as_slice());
        let mut region: Option<usize> = None;
        if starts_with_exec(low.as_slice(), open_l.as_slice()) {
            region = find_exec(low.as_slice(), close_l.as_slice());
        }
        match region {
            Some(p) => {
                proof {
                    crate::text::lemma_find(low@, close_l@);
                }
                let end_bytes = utf8_len_prefix(low.as_slice(), p);
                let off: u128 = end_bytes + close_bytes;
                assert(off == region_bytes(t@, k as int, close_tag@));
                if off == 0 {
                    return None;
                }
                match advance_exec(t.as_slice(), k, off) {
                    None => {
                        return None;
                    },
                    Some(None) => {
                        proof {
                            assert(res@ + seq![] =~= res@);
                        }
                        return Some(string_of(res.as_slice()));
                    },
                    Some(Some(j)) => {
                        proof {
                            lemma_advance(t@, k as int, off as int);
                        }
                        k = j;
                    },
                }
            },
            None => {
                let c = t[k];
                proof {
                    let tail = strip_from(t@, k + 1, open_tag@, close_tag@);
                    match tail {
                        Some(x) => {
                            assert(res@ + (seq![c] + x) =~= res@.push(c) + x);
                        },
                        None => {},
                    }
                }
                res.push(c);
                k = k + 1;
            },
        }
    }
    proof {
        assert(res@ + seq![] =~= res@);
    }
    Some(string_of(res.as_slice()))
}

/// `text` without the regions that run from a case-insensitive `open_tag` to
/// the next case-insensitive `close_tag` (the closing tag included).
pub fn strip_tag_regions(text: &str, open_tag: &str, close_tag: &str) -> (r: String)
    requires
        spec_strip_tag_regions(text@, open_tag@, close_tag@) is Some,
    ensures
        spec_strip_tag_regions(text@, open_tag@, close_tag@) == Some(r@),
{
    match strip_scan(text, open_tag, close_tag) {
        Some(s) => s,
        None => String::new(),
    }
}

/// [`strip_tag_regions`] where the scan can run; `None` exactly where it would
/// stop inside a character or would never end.
pub fn try_strip_tag_regions(text: &str, open_tag: &str, close_tag: &str) -> (r: Option<String>)
    ensures
        match r {
            Some(s) => spec_strip_tag_regions(text@, open_tag@, close_tag@) == Some(s@),
            None => spec_strip_tag_regions(text@, open_tag@, close_tag@) is None,
        },
{
    match strip_scan(text, open_tag, close_tag) {
        Some(_) => Some(strip_tag_regions(text, open_tag, close_tag)),
        None => None,
    }
}


// ---------------------------------------------------------------------------
// Removing tag regions from ASCII text
// ---------------------------------------------------------------------------

proof fn lemma_ascii_lower_ascii(c: char)
    requires
        (c as u32) < 0x80,
    ensures
        (ascii_lower(c) as u32) < 0x80,
{
}

/// The lowercase of ASCII text is ASCII text of the same length, and it
/// lowers each suffix alike.
proof fn lemma_lowercase_ascii(t: Seq<char>, k: int)
    requires
        is_ascii_text(t),
        0 <= k <= t.len(),
    ensures
        is_ascii_text(t.skip(k)),
        lowercase(t.skip(k)) == lowercase(t).skip(k),
        is_ascii_text(lowercase(t)),
        lowercase(t).len() == t.len(),
{
    assert forall|i: int| 0 <= i < t.skip(k).len() implies (#[trigger] t.skip(k)[i] as u32) < 0x80 by {
        assert(t.skip(k)[i] == t[i + k]);
    }
    assert forall|i: int| 0 <= i < lowercase(t).len() implies (#[trigger] lowercase(t)[i] as u32) < 0x80 by {
        lemma_ascii_lower_ascii(t[i]);
    }
    assert(lowercase(t.skip(k)) =~= lowercase(t).skip(k));
}

/// ASCII text takes one byte per character.
proof fn lemma_utf8_len_ascii(s: Seq<char>)
    requires
        is_ascii_text(s),
    ensures
        utf8_len(s) == s.len(),
    decreases s.len(),
{
    if s.len() > 0 {
        assert forall|i: int| 0 <= i < s.drop_last().len() implies (#[trigger] s.drop_last()[i] as u32) < 0x80 by {
            assert(s.drop_last()[i] == s[i]);
        }
        lemma_utf8_len_ascii(s.drop_last());
        assert((s.last() as u32) < 0x80);
    }
}

/// In ASCII text a move of `off` bytes is a move of `off` characters.
proof fn lemma_advance_ascii(t: Seq<char>, k: int, off: int)
    requires
        is_ascii_text(t),
        0 <= k <= t.len(),
        off >= 0,
    ensures
        advance(t, k, off) == (if k + off <= t.len() { Some(Some(k + off)) } else { Some(None::<int>) }),
    decreases t.len() - k,
{
    if off > 0 && k < t.len() {
        assert((t[k] as u32) < 0x80);
        lemma_advance_ascii(t, k + 1, off - 1);
    }
}

/// In ASCII text a region opening at `k` ends `e + close.len()` characters
/// on, `e` being where the lowercase closing tag is found in the lowercase
/// rest.
proof fn lemma_region_bytes_ascii(t: Seq<char>, k: int, close: Seq<char>)
    requires
        is_ascii_text(t),
        is_ascii_text(close),
        0 <= k <= t.len(),
        find(lowercase(t).skip(k), lowercase(close)) is Some,
    ensures
        region_bytes(t, k, close) == find(lowercase(t).skip(k), lowercase(close)).unwrap() + close.len(),
        k + find(lowercase(t).skip(k), lowercase(close)).unwrap() + close.len() <= t.len(),
{
    lemma_lowercase_ascii(t, k);
    lemma_lowercase_ascii(close, 0);
    assert(close.skip(0) =~= close);
    let low = lowercase(t.skip(k));
    let e = find(low, lowercase(close)).unwrap();
    crate::text::lemma_find(low, lowercase(close));
    let pre = low.take(e);
    assert forall|i: int| 0 <= i < pre.len() implies (#[trigger] pre[i] as u32) < 0x80 by {
        assert(pre[i] == low[i]);
    }
    lemma_utf8_len_ascii(pre);
    lemma_utf8_len_ascii(close);
}

proof fn lemma_strip_from_ascii_runs(t: Seq<char>, k: int, open: Seq<char>, close: Seq<char>)
    requires
        is_ascii_text(t),
        is_ascii_text(close),
        close.len() > 0,
        0 <= k,
    ensures
        strip_from(t, k, open, close) is Some,
    decreases t.len() - k,
{
    if k < t.len() {
        if region_at(t, k, open, close) {
            lemma_lowercase_ascii(t, k);
            lemma_region_bytes_ascii(t, k, close);
            let off = region_bytes(t, k, close);
            lemma_advance_ascii(t, k, off);
            lemma_strip_from_ascii_runs(t, k + off, open, close);
        } else {
            lemma_strip_from_ascii_runs(t, k + 1, open, close);
        }
    }
}

/// On ASCII text with a closing tag that is not empty, removing tag regions
/// always runs to its end (the scan never stops inside a character nor
/// stands still).
pub proof fn lemma_strip_ascii_runs(text: Seq<char>, open_tag: Seq<char>, close_tag: Seq<char>)
    requires
        is_ascii_text(text),
        is_ascii_text(close_tag),
        close_tag.len() > 0,
    ensures
        spec_strip_tag_regions(text, open_tag, close_tag) is Some,
{
    lemma_strip_from_ascii_runs(text, 0, open_tag, close_tag);
}

/// The advance by bytes from position `k + j` of `t` is the advance from
/// position `j` of the suffix of `t` from `k`, shifted by `k`.
proof fn lemma_advance_shift(t: Seq<char>, k: int, j: int, off: int)
    requires
        0 <= k,
        0 <= j,
        k + j <= t.len(),
    ensures
        advance(t, k + j, off) == match advance(t.skip(k), j, off) {
            Some(Some(x)) => Some(Some(x + k)),
            o => o,
        },
    decreases t.len() - k - j,
{
    if off > 0 && k + j < t.len() {
        assert(t.skip(k)[j] == t[k + j]);
        lemma_advance_shift(t, k, j + 1, off - utf8_width(t[k + j]));
    }
}

proof fn lemma_strip_from_shift(t: Seq<char>, k: int, j: int, open: Seq<char>, close: Seq<char>)
    requires
        0 <= k <= t.len(),
        0 <= j,
    ensures
        strip_from(t, k + j, open, close) == strip_from(t.skip(k), j, open, close),
    decreases t.len() - k - j,
{
    if k + j < t.len() {
        assert(t.skip(k + j) =~= t.skip(k).skip(j));
        assert(t.skip(k)[j] == t[k + j]);
        if region_at(t, k + j, open, close) {
            let off = region_bytes(t, k + j, close);
            if off > 0 {
                lemma_advance_shift(t, k, j, off);
                lemma_advance(t.skip(k), j, off);
                if let Some(Some(x)) = advance(t.skip(k), j, off) {
                    lemma_strip_from_shift(t, k, x, open, close);
                }
            }
        } else {
            lemma_strip_from_shift(t, k, j + 1, open, close);
        }
    }
}

/// Removing tag regions from ASCII text (with ASCII tags and a closing tag
/// that is not empty), in the terms of the text's own suffixes: nothing is
/// left of empty text; where the lowercase text starts with the lowercase
/// opening tag and holds the lowercase closing tag (first at `e`), what
/// follows the closing tag is scanned on; otherwise the first character is
/// kept and the rest scanned.
pub proof fn lemma_strip_ascii_step(t: Seq<char>, open_tag: Seq<char>, close_tag: Seq<char>)
    requires
        is_ascii_text(t),
        is_ascii_text(open_tag),
        is_ascii_text(close_tag),
        close_tag.len() > 0,
    ensures
        t.len() == 0 ==> spec_strip_tag_regions(t, open_tag, close_tag) == Some(Seq::<char>::empty()),
        t.len() > 0 ==> spec_strip_tag_regions(t, open_tag, close_tag) == (if starts_with(lowercase(t), lowercase(open_tag))
            && find(lowercase(t), lowercase(close_tag)) is Some {
            spec_strip_tag_regions(
                t.skip(find(lowercase(t), lowercase(close_tag)).unwrap() + close_tag.len()),
                open_tag,
                close_tag,
            )
        } else {
            Some(seq![t[0]] + spec_strip_tag_regions(t.skip(1), open_tag, close_tag).unwrap())
        }),
{
    if t.len() > 0 {
        lemma_lowercase_ascii(t, 0);
        assert(t.skip(0) =~= t);
        lemma_strip_from_ascii_runs(t, 1, open_tag, close_tag);
        lemma_strip_from_shift(t, 1, 0, open_tag, close_tag);
        if region_at(t, 0, open_tag, close_tag) {
            lemma_region_bytes_ascii(t, 0, close_tag);
            let off = region_bytes(t, 0, close_tag);
            lemma_advance_ascii(t, 0, off);
            lemma_strip_from_shift(t, off, 0, open_tag, close_tag);
        }
    }
}

/// ASCII text in whose lowercase the lowercase opening tag or the lowercase
/// closing tag does not occur comes back unchanged.
pub proof fn lemma_strip_ascii_plain(text: Seq<char>, open_tag: Seq<char>, close_tag: Seq<char>)
    requires
        is_ascii_text(text),
        is_ascii_text(close_tag),
        close_tag.len() > 0,
        !contains(lowercase(text), lowercase(open_tag)) || !contains(lowercase(text), lowercase(close_tag)),
    ensures
        spec_strip_tag_regions(text, open_tag, close_tag) == Some(text),
{
    let lo = lowercase(text);
    assert forall|k: int| 0 <= k < text.len() implies !region_at(text, k, open_tag, close_tag) by {
        lemma_lowercase_ascii(text, k);
        crate::text::lemma_find(lo, lowercase(open_tag));
        crate::text::lemma_find(lo, lowercase(close_tag));
        let low = lo.skip(k);
        if starts_with(low, lowercase(open_tag)) {
            assert(lo.subrange(k, k + lowercase(open_tag).len()) =~= low.subrange(0, lowercase(open_tag).len() as int));
            assert(matches_at(lo, lowercase(open_tag), k));
        }
        crate::text::lemma_find(low, lowercase(close_tag));
        if let Some(e) = find(low, lowercase(close_tag)) {
            assert(lo.subrange(k + e, k + e + lowercase(close_tag).len()) =~= low.subrange(e, e + lowercase(close_tag).len()));
            assert(matches_at(lo, lowercase(close_tag), k + e));
        }
    }
    lemma_strip_without_regions(text, open_tag, close_tag);
}

// ---------------------------------------------------------------------------
// HTML to terminal text
// ---------------------------------------------------------------------------

/// The entities decoded inside preformatted blocks, in this order.
pub open spec fn decode_block_entities(t: Seq<char>) -> Seq<char> {
    let t = replace(t, "&amp;"@, "&"@);
    let t = replace(t, "&lt;"@, "<"@);
    let t = replace(t, "&gt;"@, ">"@);
    let t = replace(t, "&quot;"@, "\""@);
    let t = replace(t, "&nbsp;"@, " "@);
    let t = replace(t, "&mdash;"@, "\u{2014}"@);
    let t = replace(t, "&#x3a;"@, ":"@);
    replace(t, "&#x2f;"@, "/"@)
}

/// The entities decoded in the running text, in this order.
pub open spec fn decode_text_entities(t: Seq<char>) -> Seq<char> {
    let t = replace(t, "&amp;"@, "&"@);
    let t = replace(t, "&lt;"@, "<"@);
    let t = replace(t, "&gt;"@, ">"@);
    let t = replace(t, "&quot;"@, "\""@);
    let t = replace(t, "&#x3a;"@, ":"@);
    let t = replace(t, "&#x2f;"@, "/"@);
    let t = replace(t, "&nbsp;"@, " "@);
    replace(t, "&mdash;"@, "\u{2014}"@)
}

/// Line-break tags turned into newlines.
pub open spec fn break_lines(t: Seq<char>) -> Seq<char> {
    replace(replace(replace(t, "<br>"@, "\n"@), "<br/>"@, "\n"@), "<br />"@, "\n"@)
}

/// The line that stands for the `i`-th preformatted block while the rest of
/// the page is converted.
pub open spec fn placeholder(i: nat) -> Seq<char> {
    "\n```PRECONT"@ + decimal(i) + "```\n"@
}

/// The marker of the `i`-th block inside its placeholder line.
pub open spec fn marker(i: nat) -> Seq<char> {
    "```PRECONT"@ + decimal(i) + "```"@
}

/// The pieces joined by successive placeholders, numbered from `base`.
pub open spec fn interleave(pieces: Seq<Seq<char>>, base: nat) -> Seq<char>
    decreases pieces.len(),
{
    if pieces.len() == 0 {
        seq![]
    } else if pieces.len() == 1 {
        pieces[0]
    } else {
        pieces[0] + placeholder(base) + interleave(pieces.skip(1), base + 1)
    }
}

/// The pattern of a tag.
pub open spec fn tag_pattern() -> Seq<char> {
    "<[^>]+>"@
}

/// The text of each block: its tags removed, then its entities decoded.
pub open spec fn block_texts(blocks: Seq<Seq<char>>) -> Option<Seq<Seq<char>>>
    decreases blocks.len(),
{
    if blocks.len() == 0 {
        Some(seq![])
    } else {
        match spec_regex_replace_all(tag_pattern(), blocks[0], ""@) {
            None => None,
            Some(t) => match block_texts(blocks.skip(1)) {
                None => None,
                Some(rest) => Some(seq![decode_block_entities(t)] + rest),
            },
        }
    }
}

/// Each rule's pattern replaced, one rule after the other.
pub open spec fn apply_rules(s: Seq<char>, rules: Seq<(Seq<char>, Seq<char>)>) -> Option<Seq<char>>
    decreases rules.len(),
{
    if rules.len() == 0 {
        Some(s)
    } else {
        match spec_regex_replace_all(rules[0].0, s, rules[0].1) {
            None => None,
            Some(t) => apply_rules(t, rules.skip(1)),
        }
    }
}

/// The markup rules: paragraphs, headings, lists, emphasis, links, images,
/// then every other tag dropped.
pub open spec fn markup_rules() -> Seq<(Seq<char>, Seq<char>)> {
    seq![
        ("(?i)</p>"@, "\n\n"@),
        ("(?i)<h1[^>]*>"@, "\n# "@),
        ("(?i)<h2[^>]*>"@, "\n## "@),
        ("(?i)<h3[^>]*>"@, "\n### "@),
        ("(?i)</h[1-6]>"@, "\n"@),
        ("(?i)<li[^>]*>"@, "\n- "@),
        ("(?i)</li>"@, ""@),
        ("(?i)<(?:ul|ol)[^>]*>"@, "\n"@),
        ("(?i)</(?:ul|ol)>"@, "\n"@),
        ("(?i)<strong[^>]*>"@, "**"@),
        ("(?i)</strong>"@, "**"@),
        ("(?i)<b[^>]*>"@, "**"@),
        ("(?i)</b>"@, "**"@),
        ("(?i)<em[^>]*>"@, "*"@),
        ("(?i)</em>"@, "*"@),
        ("(?i)<i[^>]*>"@, "*"@),
        ("(?i)</i>"@, "*"@),
        ("(?i)<a\\s+[^>]*href=\"([^\"]+)\"[^>]*>(.*?)</a>"@, "[$2]($1)"@),
        ("(?i)<img\\s+[^>]*src=\"([^\"]+)\"[^>]*(?:alt=\"([^\"]*)\")?[^>]*>"@, "\n![$2]($1)\n"@),
        ("<[^>]+>"@, ""@),
    ]
}

/// The layout rules: list items kept tight, indentation and trailing blanks
/// dropped, runs of blank lines shortened.
pub open spec fn layout_rules() -> Seq<(Seq<char>, Seq<char>)> {
    seq![
        ("\\n{2,}- "@, "\n- "@),
        ("\\n- \\s*\\n"@, "\n- "@),
        ("- [ \\t]+"@, "- "@),
        ("(?m)^ +"@, ""@),
        ("\\n{3,}"@, "\n\n"@),
        ("[ \\t]+\\n"@, "\n"@),
    ]
}

/// Each block marker replaced by its block, fenced, numbering from `idx`.
pub open spec fn restore_blocks(s: Seq<char>, blocks: Seq<Seq<char>>, idx: nat) -> Seq<char>
    decreases blocks.len(),
{
    if blocks.len() == 0 {
        s
    } else {
        restore_blocks(
            replace(s, marker(idx), "```\n"@ + blocks[0] + "\n```"@),
            blocks.skip(1),
            idx + 1,
        )
    }
}

pub open spec fn pre_pattern() -> Seq<char> {
    "(?is)<pre[^>]*>.*?</pre>"@
}

pub open spec fn code_pattern() -> Seq<char> {
    "(?is)<code[^>]*>.*?</code>"@
}

/// The page text once preformatted blocks stand aside: scripts and styles
/// removed, line breaks made newlines, each `<pre>` and then each `<code>`
/// element replaced by a numbered placeholder. With it, the blocks' texts.
pub open spec fn set_blocks_aside(html: Seq<char>) -> Option<(Seq<char>, Seq<Seq<char>>)> {
    match spec_strip_tag_regions(html, "<script"@, "</script>"@) {
        None => None,
        Some(s1) => match spec_strip_tag_regions(s1, "<style"@, "</style>"@) {
            None => None,
            Some(s2) => match (
                spec_regex_split(pre_pattern(), break_lines(s2)),
                spec_regex_find_all(pre_pattern(), break_lines(s2)),
            ) {
                (Some(pre_pieces), Some(pre_blocks)) => match block_texts(pre_blocks) {
                    None => None,
                    Some(pre_texts) => match (
                        spec_regex_split(code_pattern(), interleave(pre_pieces, 0)),
                        spec_regex_find_all(code_pattern(), interleave(pre_pieces, 0)),
                    ) {
                        (Some(code_pieces), Some(code_blocks)) => match block_texts(code_blocks) {
                            None => None,
                            Some(code_texts) => Some(
                                (interleave(code_pieces, pre_blocks.len()), pre_texts + code_texts),
                            ),
                        },
                        _ => None,
                    },
                },
                _ => None,
            },
        },
    }
}

/// The terminal text of an HTML page: markup rendered as light Markdown,
/// entities decoded, preformatted blocks fenced, blank runs tidied, and the
/// whole trimmed. `None` where a step cannot run (a refused pattern, or a tag
/// scan that cannot go on).
pub open spec fn spec_html_to_term(html: Seq<char>) -> Option<Seq<char>> {
    match set_blocks_aside(html) {
        None => None,
        Some(aside) => match apply_rules(aside.0, markup_rules()) {
            None => None,
            Some(s) => match apply_rules(
                restore_blocks(decode_text_entities(s), aside.1, 0),
                layout_rules(),
            ) {
                None => None,
                Some(t) => Some(trim(t)),
            },
        },
    }
}

pub open spec fn rules_view(v: Seq<(&str, &str)>) -> Seq<(Seq<char>, Seq<char>)> {
    v.map_values(|r: (&str, &str)| (r.0@, r.1@))
}

fn markup_rules_exec() -> (r: Vec<(&'static str, &'static str)>)
    ensures
        rules_view(r@) == markup_rules(),
{
    let mut v: Vec<(&'static str, &'static str)> = Vec::new();
    v.push(("(?i)</p>", "\n\n"));
    v.push(("(?i)<h1[^>]*>", "\n# "));
    v.push(("(?i)<h2[^>]*>", "\n## "));
    v.push(("(?i)<h3[^>]*>", "\n### "));
    v.push(("(?i)</h[1-6]>", "\n"));
    v.push(("(?i)<li[^>]*>", "\n- "));
    v.push(("(?i)</li>", ""));
    v.push(("(?i)<(?:ul|ol)[^>]*>", "\n"));
    v.push(("(?i)</(?:ul|ol)>", "\n"));
    v.push(("(?i)<strong[^>]*>", "**"));
    v.push(("(?i)</strong>", "**"));
    v.push(("(?i)<b[^>]*>", "**"));
    v.push(("(?i)</b>", "**"));
    v.push(("(?i)<em[^>]*>", "*"));
    v.push(("(?i)</em>", "*"));
    v.push(("(?i)<i[^>]*>", "*"));
    v.push(("(?i)</i>", "*"));
    v.push(("(?i)<a\\s+[^>]*href=\"([^\"]+)\"[^>]*>(.*?)</a>", "[$2]($1)"));
    v.push(("(?i)<img\\s+[^>]*src=\"([^\"]+)\"[^>]*(?:alt=\"([^\"]*)\")?[^>]*>", "\n![$2]($1)\n"));
    v.push(("<[^>]+>", ""));
    assert(rules_view(v@) =~= markup_rules());
    v
}

fn layout_rules_exec() -> (r: Vec<(&'static str, &'static str)>)
    ensures
        rules_view(r@) == layout_rules(),
{
    let mut v: Vec<(&'static str, &'static str)> = Vec::new();
    v.push(("\\n{2,}- ", "\n- "));
    v.push(("\\n- \\s*\\n", "\n- "));
    v.push(("- [ \\t]+", "- "));
    v.push(("(?m)^ +", ""));
    v.push(("\\n{3,}", "\n\n"));
    v.push(("[ \\t]+\\n", "\n"));
    assert(rules_view(v@) =~= layout_rules());
    v
}

/// Applies each rule in turn (see [`apply_rules`]).
fn apply_rules_exec(s: String, rules: &Vec<(&'static str, &'static str)>) -> (r: Option<String>)
    ensures
        match r {
            Some(t) => apply_rules(s@, rules_view(rules@)) == Some(t@),
            None => apply_rules(s@, rules_view(rules@)) is None,
        },
{
    let ghost rs = rules_view(rules@);
    let mut cur = s;
    let mut i: usize = 0;
    assert(rs.skip(0) =~= rs);
    while i < rules.len()
        invariant
            i <= rules@.len(),
            rs == rules_view(rules@),
            apply_rules(s@, rs) == apply_rules(cur@, rs.skip(i as int)),
        decreases rules.len() - i,
    {
        let (p, rep) = rules[i];
        proof {
            assert(rs.skip(i as int)[0] == rs[i as int]);
            assert(rs.skip(i as int).skip(1) =~= rs.skip(i + 1));
        }
        match regex_replace_all(p, cur.as_str(), rep) {
            Some(t) => {
                cur = t;
            },
            None => {
                return None;
            },
        }
        i = i + 1;
    }
    Some(cur)
}

/// The entities of a block decoded (see [`decode_block_entities`]).
fn decode_block_entities_exec(t: &str) -> (r: String)
    ensures
        r@ == decode_block_entities(t@),
{
    proof {
        reveal_strlit("&amp;");
        reveal_strlit("&lt;");
        reveal_strlit("&gt;");
        reveal_strlit("&quot;");
        reveal_strlit("&nbsp;");
        reveal_strlit("&mdash;");
        reveal_strlit("&#x3a;");
        reveal_strlit("&#x2f;");
    }
    let t = str_replace(t, "&amp;", "&");
    let t = str_replace(t.as_str(), "&lt;", "<");
    let t = str_replace(t.as_str(), "&gt;", ">");
    let t = str_replace(t.as_str(), "&quot;", "\"");
    let t = str_replace(t.as_str(), "&nbsp;", " ");
    let t = str_replace(t.as_str(), "&mdash;", "\u{2014}");
    let t = str_replace(t.as_str(), "&#x3a;", ":");
    str_replace(t.as_str(), "&#x2f;", "/")
}

/// The entities of the running text decoded (see [`decode_text_entities`]).
fn decode_text_entities_exec(t: &str) -> (r: String)
    ensures
        r@ == decode_text_entities(t@),
{
    proof {
        reveal_strlit("&amp;");
        reveal_strlit("&lt;");
        reveal_strlit("&gt;");
        reveal_strlit("&quot;");
        reveal_strlit("&nbsp;");
        reveal_strlit("&mdash;");
        reveal_strlit("&#x3a;");
        reveal_strlit("&#x2f;");
    }
    let t = str_replace(t, "&amp;", "&");
    let t = str_replace(t.as_str(), "&lt;", "<");
    let t = str_replace(t.as_str(), "&gt;", ">");
    let t = str_replace(t.as_str(), "&quot;", "\"");
    let t = str_replace(t.as_str(), "&#x3a;", ":");
    let t = str_replace(t.as_str(), "&#x2f;", "/");
    let t = str_replace(t.as_str(), "&nbsp;", " ");
    str_replace(t.as_str(), "&mdash;", "\u{2014}")
}

/// The text of each block (see [`block_texts`]).
fn block_texts_exec(blocks: &Vec<String>) -> (r: Option<Vec<String>>)
    ensures
        match r {
            Some(v) => block_texts(strings_view(blocks@)) == Some(strings_view(v@)),
            None => block_texts(strings_view(blocks@)) is None,
        },
{
    let ghost bs = strings_view(blocks@);
    let mut out: Vec<String> = Vec::new();
    let mut i: usize = 0;
    assert(bs.skip(0) =~= bs);
    assert(strings_view(out@) + bs =~= bs) by {
        assert(strings_view(out@) =~= Seq::<Seq<char>>::empty());
    }
    while i < blocks.len()
        invariant
            i <= blocks@.len(),
            bs == strings_view(blocks@),
            block_texts(bs) == match block_texts(bs.skip(i as int)) {
                Some(rest) => Some(strings_view(out@) + rest),
                None => None::<Seq<Seq<char>>>,
            },
        decreases blocks.len() - i,
    {
        proof {
            assert(bs.skip(i as int)[0] == bs[i as int]);
            assert(bs.skip(i as int).skip(1) =~= bs.skip(i + 1));
        }
        proof {
            reveal_strlit("<[^>]+>");
            reveal_strlit("");
        }
        match regex_replace_all("<[^>]+>", blocks[i].as_str(), "") {
            None => {
                return None;
            },
            Some(t) => {
                let d = decode_block_entities_exec(t.as_str());
                let ghost old_out = strings_view(out@);
                out.push(d);
                proof {
                    assert(strings_view(out@) =~= old_out.push(d@));
                    match block_texts(bs.skip(i + 1)) {
                        Some(rest) => {
                            assert(old_out + (seq![d@] + rest) =~= old_out.push(d@) + rest);
                        },
                        None => {},
                    }
                }
            },
        }
        i = i + 1;
    }
    proof {
        assert(bs.skip(i as int) =~= Seq::<Seq<char>>::empty());
        assert(strings_view(out@) + Seq::<Seq<char>>::empty() =~= strings_view(out@));
    }
    Some(out)
}

/// The placeholder line of block `i`.
fn placeholder_exec(i: u128) -> (r: Vec<char>)
    ensures
        r@ == placeholder(i as nat),
{
    let mut r = chars_of("\n```PRECONT");
    let d = decimal_exec(i);
    append_chars(&mut r, d.as_slice());
    let tail = chars_of("```\n");
    append_chars(&mut r, tail.as_slice());
    r
}

/// The marker of block `i`.
fn marker_exec(i: usize) -> (r: Vec<char>)
    ensures
        r@ == marker(i as nat),
{
    let mut r = chars_of("```PRECONT");
    let d = decimal_exec(i as u128);
    append_chars(&mut r, d.as_slice());
    let tail = chars_of("```");
    append_chars(&mut r, tail.as_slice());
    r
}

/// The pieces joined by placeholders numbered from `base` (see [`interleave`]).
fn interleave_exec(pieces: &Vec<String>, base: usize) -> (r: String)
    ensures
        r@ == interleave(strings_view(pieces@), base as nat),
{
    let ghost ps = strings_view(pieces@);
    let mut r: Vec<char> = Vec::new();
    if pieces.len() == 0 {
        return string_of(r.as_slice());
    }
    let mut i: usize = 0;
    assert(ps.skip(0) =~= ps);
    while i + 1 < pieces.len()
        invariant
            i < pieces@.len(),
            ps == strings_view(pieces@),
            interleave(ps, base as nat) == r@ + interleave(ps.skip(i as int), (base + i) as nat),
        decreases pieces.len() - i,
    {
        let p = chars_of(pieces[i].as_str());
        let ph = placeholder_exec(base as u128 + i as u128);
        let ghost old_r = r@;
        append_chars(&mut r, p.as_slice());
        append_chars(&mut r, ph.as_slice());
        proof {
            let t = ps.skip(i as int);
            assert(t[0] == ps[i as int]);
            assert(t.skip(1) =~= ps.skip(i + 1));
            assert(old_r + (t[0] + placeholder((base + i) as nat) + interleave(t.skip(1), (base + i + 1) as nat))
                =~= r@ + interleave(ps.skip(i + 1), (base + i + 1) as nat));
        }
        i = i + 1;
    }
    let p = chars_of(pieces[i].as_str());
    proof {
        let t = ps.skip(i as int);
        assert(t.len() == 1);
        assert(t[0] == ps[i as int]);
    }
    append_chars(&mut r, p.as_slice());
    string_of(r.as_slice())
}

/// Each block marker replaced by its fenced block (see [`restore_blocks`]).
fn restore_blocks_exec(s: String, blocks: &Vec<String>) -> (r: String)
    ensures
        r@ == restore_blocks(s@, strings_view(blocks@), 0),
{
    let ghost bs = strings_view(blocks@);
    let mut cur = s;
    let mut i: usize = 0;
    assert(bs.skip(0) =~= bs);
    while i < blocks.len()
        invariant
            i <= blocks@.len(),
            bs == strings_view(blocks@),
            restore_blocks(s@, bs, 0) == restore_blocks(cur@, bs.skip(i as int), i as nat),
        decreases blocks.len() - i,
    {
        let m = marker_exec(i);
        let mut rep = chars_of("```\n");
        let b = chars_of(blocks[i].as_str());
        append_chars(&mut rep, b.as_slice());
        let close = chars_of("\n```");
        append_chars(&mut rep, close.as_slice());
        let c = chars_of(cur.as_str());
        proof {
            reveal_strlit("```PRECONT");
            assert(m@.len() > 0);
            let t = bs.skip(i as int);
            assert(t[0] == bs[i as int]);
            assert(t.skip(1) =~= bs.skip(i + 1));
        }
        let next = crate::text::replace_exec(c.as_slice(), m.as_slice(), rep.as_slice());
        cur = string_of(next.as_slice());
        i = i + 1;
    }
    cur
}

/// The page text with preformatted blocks set aside (see [`set_blocks_aside`]).
fn set_blocks_aside_exec(html: &str) -> (r: Option<(String, Vec<String>)>)
    ensures
        match r {
            Some(p) => set_blocks_aside(html@) == Some((p.0@, strings_view(p.1@))),
            None => set_blocks_aside(html@) is None,
        },
{
    let s1 = match try_strip_tag_regions(html, "<script", "</script>") {
        Some(s) => s,
        None => return None,
    };
    let s2 = match try_strip_tag_regions(s1.as_str(), "<style", "</style>") {
        Some(s) => s,
        None => return None,
    };
    proof {
        reveal_strlit("<br>");
        reveal_strlit("<br/>");
        reveal_strlit("<br />");
    }
    let s3 = str_replace(s2.as_str(), "<br>", "\n");
    let s3 = str_replace(s3.as_str(), "<br/>", "\n");
    let s3 = str_replace(s3.as_str(), "<br />", "\n");
    let (pre_pieces, pre_blocks) = match (
        regex_split("(?is)<pre[^>]*>.*?</pre>", s3.as_str()),
        regex_find_all("(?is)<pre[^>]*>.*?</pre>", s3.as_str()),
    ) {
        (Some(p), Some(b)) => (p, b),
        _ => return None,
    };
    let pre_texts = match block_texts_exec(&pre_blocks) {
        Some(t) => t,
        None => return None,
    };
    let s4 = interleave_exec(&pre_pieces, 0);
    let (code_pieces, code_blocks) = match (
        regex_split("(?is)<code[^>]*>.*?</code>", s4.as_str()),
        regex_find_all("(?is)<code[^>]*>.*?</code>", s4.as_str()),
    ) {
        (Some(p), Some(b)) => (p, b),
        _ => return None,
    };
    let code_texts = match block_texts_exec(&code_blocks) {
        Some(t) => t,
        None => return None,
    };
    let s5 = interleave_exec(&code_pieces, pre_blocks.len());
    let mut texts = pre_texts;
    let mut more = code_texts;
    let ghost a = strings_view(texts@);
    let ghost b = strings_view(more@);
    texts.append(&mut more);
    assert(strings_view(texts@) =~= a + b);
    Some((s5, texts))
}

/// The page converted to terminal text; `None` exactly where a step cannot
/// run (see [`spec_html_to_term`]).
fn convert(html: &str) -> (r: Option<String>)
    ensures
        match r {
            Some(s) => spec_html_to_term(html@) == Some(s@),
            None => spec_html_to_term(html@) is None,
        },
{
    let (s, blocks) = match set_blocks_aside_exec(html) {
        Some(p) => p,
        None => return None,
    };
    let markup = markup_rules_exec();
    let s = match apply_rules_exec(s, &markup) {
        Some(t) => t,
        None => return None,
    };
    let s = decode_text_entities_exec(s.as_str());
    let s = restore_blocks_exec(s, &blocks);
    let layout = layout_rules_exec();
    let s = match apply_rules_exec(s, &layout) {
        Some(t) => t,
        None => return None,
    };
    Some(str_trim(s.as_str()))
}

/// The text of an HTML page for a terminal: scripts and styles removed,
/// paragraphs, headings, lists, emphasis, links and images rendered as light
/// Markdown, preformatted and code blocks fenced, entities decoded, blank
/// runs tidied, the whole trimmed.
pub fn html_to_term(html: &str) -> (r: String)
    requires
        spec_html_to_term(html@) is Some,
    ensures
        spec_html_to_term(html@) == Some(r@),
{
    match convert(html) {
        Some(s) => s,
        None => String::new(),
    }
}

/// [`html_to_term`] where every step can run; `None` exactly where one
/// cannot (a pattern refused, a tag scan that cannot go on).
pub fn try_html_to_term(html: &str) -> (r: Option<String>)
    ensures
        match r {
            Some(s) => spec_html_to_term(html@) == Some(s@),
            None => spec_html_to_term(html@) is None,
        },
{
    match convert(html) {
        Some(_) => Some(html_to_term(html)),
        None => None,
    }
}


/// The terminal text of a page neither starts nor ends with white space.
pub proof fn lemma_term_text_trimmed(html: Seq<char>)
    ensures
        spec_html_to_term(html) matches Some(t) ==> (t.len() > 0 ==> !crate::text::is_white_space(t[0])
            && !crate::text::is_white_space(t.last())),
{
    match set_blocks_aside(html) {
        None => {},
        Some(aside) => match apply_rules(aside.0, markup_rules()) {
            None => {},
            Some(s) => match apply_rules(
                restore_blocks(decode_text_entities(s), aside.1, 0),
                layout_rules(),
            ) {
                None => {},
                Some(t) => crate::text::lemma_trim_clean(t),
            },
        },
    }
}

/// Removing tag regions never lengthens the text: where the scan runs, its
/// result has at most as many characters as the text.
pub proof fn lemma_strip_not_longer(text: Seq<char>, open_tag: Seq<char>, close_tag: Seq<char>)
    ensures
        spec_strip_tag_regions(text, open_tag, close_tag) matches Some(r) ==> r.len() <= text.len(),
{
    lemma_strip_from_not_longer(text, 0, open_tag, close_tag);
}

proof fn lemma_strip_from_not_longer(t: Seq<char>, k: int, open: Seq<char>, close: Seq<char>)
    requires
        0 <= k,
    ensures
        strip_from(t, k, open, close) matches Some(r) ==> r.len() + k <= t.len() || k >= t.len() && r.len() == 0,
    decreases t.len() - k,
{
    if k < t.len() {
        if region_at(t, k, open, close) {
            let off = region_bytes(t, k, close);
            if off > 0 {
                lemma_advance(t, k, off);
                if let Some(Some(j)) = advance(t, k, off) {
                    lemma_strip_from_not_longer(t, j, open, close);
                }
            }
        } else {
            lemma_strip_from_not_longer(t, k + 1, open, close);
        }
    }
}

/// A text where no region opens is left as it is by the removal of tag
/// regions.
pub proof fn lemma_strip_without_regions(text: Seq<char>, open_tag: Seq<char>, close_tag: Seq<char>)
    requires
        forall|k: int| 0 <= k < text.len() ==> !region_at(text, k, open_tag, close_tag),
    ensures
        spec_strip_tag_regions(text, open_tag, close_tag) == Some(text),
{
    lemma_strip_from_without_regions(text, 0, open_tag, close_tag);
    assert(text.skip(0) =~= text);
}

proof fn lemma_strip_from_without_regions(t: Seq<char>, k: int, open: Seq<char>, close: Seq<char>)
    requires
        0 <= k <= t.len(),
        forall|j: int| 0 <= j < t.len() ==> !region_at(t, j, open, close),
    ensures
        strip_from(t, k, open, close) == Some(t.skip(k)),
    decreases t.len() - k,
{
    if k < t.len() {
        lemma_strip_from_without_regions(t, k + 1, open, close);
        assert(seq![t[k]] + t.skip(k + 1) =~= t.skip(k));
    } else {
        assert(t.skip(k) =~= Seq::<char>::empty());
    }
}


/// Running text without any of the decoded entities is left as it is.
pub proof fn lemma_decode_without_entities(t: Seq<char>)
    requires
        !crate::text::contains(t, "&amp;"@),
        !crate::text::contains(t, "&lt;"@),
        !crate::text::contains(t, "&gt;"@),
        !crate::text::contains(t, "&quot;"@),
        !crate::text::contains(t, "&#x3a;"@),
        !crate::text::contains(t, "&#x2f;"@),
        !crate::text::contains(t, "&nbsp;"@),
        !crate::text::contains(t, "&mdash;"@),
    ensures
        decode_text_entities(t) == t,
{
    crate::text::lemma_replace_absent(t, "&amp;"@, "&"@);
    crate::text::lemma_replace_absent(t, "&lt;"@, "<"@);
    crate::text::lemma_replace_absent(t, "&gt;"@, ">"@);
    crate::text::lemma_replace_absent(t, "&quot;"@, "\""@);
    crate::text::lemma_replace_absent(t, "&#x3a;"@, ":"@);
    crate::text::lemma_replace_absent(t, "&#x2f;"@, "/"@);
    crate::text::lemma_replace_absent(t, "&nbsp;"@, " "@);
    crate::text::lemma_replace_absent(t, "&mdash;"@, "\u{2014}"@);
}


/// Every literal `&` of the running text's entities opens an entity and no
/// entity holds a second `&`; the decoded characters hold no `&`.
proof fn lemma_entity_literals()
    ensures
        "&amp;"@.len() == 5, "&amp;"@[0] == '&', !"&amp;"@.skip(1).contains('&'),
        "&lt;"@.len() == 4, "&lt;"@[0] == '&', !"&lt;"@.skip(1).contains('&'), !"<"@.contains('&'),
        "&gt;"@.len() == 4, "&gt;"@[0] == '&', !"&gt;"@.skip(1).contains('&'), !">"@.contains('&'),
        "&quot;"@.len() == 6, "&quot;"@[0] == '&', !"&quot;"@.skip(1).contains('&'), !"\""@.contains('&'),
        "&#x3a;"@.len() == 6, "&#x3a;"@[0] == '&', !"&#x3a;"@.skip(1).contains('&'), !":"@.contains('&'),
        "&#x2f;"@.len() == 6, "&#x2f;"@[0] == '&', !"&#x2f;"@.skip(1).contains('&'), !"/"@.contains('&'),
        "&nbsp;"@.len() == 6, "&nbsp;"@[0] == '&', !"&nbsp;"@.skip(1).contains('&'), !" "@.contains('&'),
        "&mdash;"@.len() == 7, "&mdash;"@[0] == '&', !"&mdash;"@.skip(1).contains('&'), !"\u{2014}"@.contains('&'),
{
    reveal_strlit("&amp;");
    reveal_strlit("&");
    reveal_strlit("&lt;");
    reveal_strlit("<");
    reveal_strlit("&gt;");
    reveal_strlit(">");
    reveal_strlit("&quot;");
    reveal_strlit("\"");
    reveal_strlit("&#x3a;");
    reveal_strlit(":");
    reveal_strlit("&#x2f;");
    reveal_strlit("/");
    reveal_strlit("&nbsp;");
    reveal_strlit(" ");
    reveal_strlit("&mdash;");
    reveal_strlit("\u{2014}");
    assert forall|i: int| 0 <= i < "&amp;"@.skip(1).len() implies "&amp;"@.skip(1)[i] != '&' by {
        assert("&amp;"@.skip(1)[i] == "&amp;"@[i + 1]);
    }
    assert forall|i: int| 0 <= i < "&lt;"@.skip(1).len() implies "&lt;"@.skip(1)[i] != '&' by {
        assert("&lt;"@.skip(1)[i] == "&lt;"@[i + 1]);
    }
    assert forall|i: int| 0 <= i < "<"@.len() implies "<"@[i] != '&' by {}
    assert forall|i: int| 0 <= i < "&gt;"@.skip(1).len() implies "&gt;"@.skip(1)[i] != '&' by {
        assert("&gt;"@.skip(1)[i] == "&gt;"@[i + 1]);
    }
    assert forall|i: int| 0 <= i < ">"@.len() implies ">"@[i] != '&' by {}
    assert forall|i: int| 0 <= i < "&quot;"@.skip(1).len() implies "&quot;"@.skip(1)[i] != '&' by {
        assert("&quot;"@.skip(1)[i] == "&quot;"@[i + 1]);
    }
    assert forall|i: int| 0 <= i < "\""@.len() implies "\""@[i] != '&' by {}
    assert forall|i: int| 0 <= i < "&#x3a;"@.skip(1).len() implies "&#x3a;"@.skip(1)[i] != '&' by {
        assert("&#x3a;"@.skip(1)[i] == "&#x3a;"@[i + 1]);
    }
    assert forall|i: int| 0 <= i < ":"@.len() implies ":"@[i] != '&' by {}
    assert forall|i: int| 0 <= i < "&#x2f;"@.skip(1).len() implies "&#x2f;"@.skip(1)[i] != '&' by {
        assert("&#x2f;"@.skip(1)[i] == "&#x2f;"@[i + 1]);
    }
    assert forall|i: int| 0 <= i < "/"@.len() implies "/"@[i] != '&' by {}
    assert forall|i: int| 0 <= i < "&nbsp;"@.skip(1).len() implies "&nbsp;"@.skip(1)[i] != '&' by {
        assert("&nbsp;"@.skip(1)[i] == "&nbsp;"@[i + 1]);
    }
    assert forall|i: int| 0 <= i < " "@.len() implies " "@[i] != '&' by {}
    assert forall|i: int| 0 <= i < "&mdash;"@.skip(1).len() implies "&mdash;"@.skip(1)[i] != '&' by {
        assert("&mdash;"@.skip(1)[i] == "&mdash;"@[i + 1]);
    }
    assert forall|i: int| 0 <= i < "\u{2014}"@.len() implies "\u{2014}"@[i] != '&' by {}
}

/// `a`, `c` and `b` without `&` give a text without `&`.
proof fn lemma_no_amp_join(a: Seq<char>, c: Seq<char>, b: Seq<char>)
    requires
        !a.contains('&'),
        !c.contains('&'),
        !b.contains('&'),
    ensures
        !(a + c + b).contains('&'),
{
    let s = a + c + b;
    assert forall|i: int| 0 <= i < s.len() implies s[i] != '&' by {
        if i < a.len() {
            assert(s[i] == a[i]);
        } else if i < a.len() + c.len() {
            assert(s[i] == c[i - a.len()]);
        } else {
            assert(s[i] == b[i - a.len() - c.len()]);
        }
    }
}

proof fn lemma_decode_lt(a: Seq<char>, b: Seq<char>)
    requires
        !a.contains('&'),
        !b.contains('&'),
    ensures
        decode_text_entities(a + "&lt;"@ + b) == a + "<"@ + b,
{
    lemma_entity_literals();
    reveal_strlit("&amp;");
    reveal_strlit("&lt;");
    lemma_replace_other(a, "&lt;"@, b, "&amp;"@, "&"@, 1);
    lemma_replace_one(a, "&lt;"@, "<"@, b);
    lemma_no_amp_join(a, "<"@, b);
    lemma_replace_no_amp(a + "<"@ + b, "&gt;"@, ">"@);
    lemma_replace_no_amp(a + "<"@ + b, "&quot;"@, "\""@);
    lemma_replace_no_amp(a + "<"@ + b, "&#x3a;"@, ":"@);
    lemma_replace_no_amp(a + "<"@ + b, "&#x2f;"@, "/"@);
    lemma_replace_no_amp(a + "<"@ + b, "&nbsp;"@, " "@);
    lemma_replace_no_amp(a + "<"@ + b, "&mdash;"@, "\u{2014}"@);
}

proof fn lemma_decode_gt(a: Seq<char>, b: Seq<char>)
    requires
        !a.contains('&'),
        !b.contains('&'),
    ensures
        decode_text_entities(a + "&gt;"@ + b) == a + ">"@ + b,
{
    lemma_entity_literals();
    reveal_strlit("&amp;");
    reveal_strlit("&gt;");
    lemma_replace_other(a, "&gt;"@, b, "&amp;"@, "&"@, 1);
    reveal_strlit("&lt;");
    reveal_strlit("&gt;");
    lemma_replace_other(a, "&gt;"@, b, "&lt;"@, "<"@, 1);
    lemma_replace_one(a, "&gt;"@, ">"@, b);
    lemma_no_amp_join(a, ">"@, b);
    lemma_replace_no_amp(a + ">"@ + b, "&quot;"@, "\""@);
    lemma_replace_no_amp(a + ">"@ + b, "&#x3a;"@, ":"@);
    lemma_replace_no_amp(a + ">"@ + b, "&#x2f;"@, "/"@);
    lemma_replace_no_amp(a + ">"@ + b, "&nbsp;"@, " "@);
    lemma_replace_no_amp(a + ">"@ + b, "&mdash;"@, "\u{2014}"@);
}

proof fn lemma_decode_quot(a: Seq<char>, b: Seq<char>)
    requires
        !a.contains('&'),
        !b.contains('&'),
    ensures
        decode_text_entities(a + "&quot;"@ + b) == a + "\""@ + b,
{
    lemma_entity_literals();
    reveal_strlit("&amp;");
    reveal_strlit("&quot;");
    lemma_replace_other(a, "&quot;"@, b, "&amp;"@, "&"@, 1);
    reveal_strlit("&lt;");
    reveal_strlit("&quot;");
    lemma_replace_other(a, "&quot;"@, b, "&lt;"@, "<"@, 1);
    reveal_strlit("&gt;");
    reveal_strlit("&quot;");
    lemma_replace_other(a, "&quot;"@, b, "&gt;"@, ">"@, 1);
    lemma_replace_one(a, "&quot;"@, "\""@, b);
    lemma_no_amp_join(a, "\""@, b);
    lemma_replace_no_amp(a + "\""@ + b, "&#x3a;"@, ":"@);
    lemma_replace_no_amp(a + "\""@ + b, "&#x2f;"@, "/"@);
    lemma_replace_no_amp(a + "\""@ + b, "&nbsp;"@, " "@);
    lemma_replace_no_amp(a + "\""@ + b, "&mdash;"@, "\u{2014}"@);
}

proof fn lemma_decode_colon(a: Seq<char>, b: Seq<char>)
    requires
        !a.contains('&'),
        !b.contains('&'),
    ensures
        decode_text_entities(a + "&#x3a;"@ + b) == a + ":"@ + b,
{
    lemma_entity_literals();
    reveal_strlit("&amp;");
    reveal_strlit("&#x3a;");
    lemma_replace_other(a, "&#x3a;"@, b, "&amp;"@, "&"@, 1);
    reveal_strlit("&lt;");
    reveal_strlit("&#x3a;");
    lemma_replace_other(a, "&#x3a;"@, b, "&lt;"@, "<"@, 1);
    reveal_strlit("&gt;");
    reveal_strlit("&#x3a;");
    lemma_replace_other(a, "&#x3a;"@, b, "&gt;"@, ">"@, 1);
    reveal_strlit("&quot;");
    reveal_strlit("&#x3a;");
    lemma_replace_other(a, "&#x3a;"@, b, "&quot;"@, "\""@, 1);
    lemma_replace_one(a, "&#x3a;"@, ":"@, b);
    lemma_no_amp_join(a, ":"@, b);
    lemma_replace_no_amp(a + ":"@ + b, "&#x2f;"@, "/"@);
    lemma_replace_no_amp(a + ":"@ + b, "&nbsp;"@, " "@);
    lemma_replace_no_amp(a + ":"@ + b, "&mdash;"@, "\u{2014}"@);
}

proof fn lemma_decode_slash(a: Seq<char>, b: Seq<char>)
    requires
        !a.contains('&'),
        !b.contains('&'),
    ensures
        decode_text_entities(a + "&#x2f;"@ + b) == a + "/"@ + b,
{
    lemma_entity_literals();
    reveal_strlit("&amp;");
    reveal_strlit("&#x2f;");
    lemma_replace_other(a, "&#x2f;"@, b, "&amp;"@, "&"@, 1);
    reveal_strlit("&lt;");
    reveal_strlit("&#x2f;");
    lemma_replace_other(a, "&#x2f;"@, b, "&lt;"@, "<"@, 1);
    reveal_strlit("&gt;");
    reveal_strlit("&#x2f;");
    lemma_replace_other(a, "&#x2f;"@, b, "&gt;"@, ">"@, 1);
    reveal_strlit("&quot;");
    reveal_strlit("&#x2f;");
    lemma_replace_other(a, "&#x2f;"@, b, "&quot;"@, "\""@, 1);
    reveal_strlit("&#x3a;");
    reveal_strlit("&#x2f;");
    lemma_replace_other(a, "&#x2f;"@, b, "&#x3a;"@, ":"@, 3);
    lemma_replace_one(a, "&#x2f;"@, "/"@, b);
    lemma_no_amp_join(a, "/"@, b);
    lemma_replace_no_amp(a + "/"@ + b, "&nbsp;"@, " "@);
    lemma_replace_no_amp(a + "/"@ + b, "&mdash;"@, "\u{2014}"@);
}

proof fn lemma_decode_nbsp(a: Seq<char>, b: Seq<char>)
    requires
        !a.contains('&'),
        !b.contains('&'),
    ensures
        decode_text_entities(a + "&nbsp;"@ + b) == a + " "@ + b,
{
    lemma_entity_literals();
    reveal_strlit("&amp;");
    reveal_strlit("&nbsp;");
    lemma_replace_other(a, "&nbsp;"@, b, "&amp;"@, "&"@, 1);
    reveal_strlit("&lt;");
    reveal_strlit("&nbsp;");
    lemma_replace_other(a, "&nbsp;"@, b, "&lt;"@, "<"@, 1);
    reveal_strlit("&gt;");
    reveal_strlit("&nbsp;");
    lemma_replace_other(a, "&nbsp;"@, b, "&gt;"@, ">"@, 1);
    reveal_strlit("&quot;");
    reveal_strlit("&nbsp;");
    lemma_replace_other(a, "&nbsp;"@, b, "&quot;"@, "\""@, 1);
    reveal_strlit("&#x3a;");
    reveal_strlit("&nbsp;");
    lemma_replace_other(a, "&nbsp;"@, b, "&#x3a;"@, ":"@, 1);
    reveal_strlit("&#x2f;");
    reveal_strlit("&nbsp;");
    lemma_replace_other(a, "&nbsp;"@, b, "&#x2f;"@, "/"@, 1);
    lemma_replace_one(a, "&nbsp;"@, " "@, b);
    lemma_no_amp_join(a, " "@, b);
    lemma_replace_no_amp(a + " "@ + b, "&mdash;"@, "\u{2014}"@);
}

proof fn lemma_decode_mdash(a: Seq<char>, b: Seq<char>)
    requires
        !a.contains('&'),
        !b.contains('&'),
    ensures
        decode_text_entities(a + "&mdash;"@ + b) == a + "\u{2014}"@ + b,
{
    lemma_entity_literals();
    reveal_strlit("&amp;");
    reveal_strlit("&mdash;");
    lemma_replace_other(a, "&mdash;"@, b, "&amp;"@, "&"@, 1);
    reveal_strlit("&lt;");
    reveal_strlit("&mdash;");
    lemma_replace_other(a, "&mdash;"@, b, "&lt;"@, "<"@, 1);
    reveal_strlit("&gt;");
    reveal_strlit("&mdash;");
    lemma_replace_other(a, "&mdash;"@, b, "&gt;"@, ">"@, 1);
    reveal_strlit("&quot;");
    reveal_strlit("&mdash;");
    lemma_replace_other(a, "&mdash;"@, b, "&quot;"@, "\""@, 1);
    reveal_strlit("&#x3a;");
    reveal_strlit("&mdash;");
    lemma_replace_other(a, "&mdash;"@, b, "&#x3a;"@, ":"@, 1);
    reveal_strlit("&#x2f;");
    reveal_strlit("&mdash;");
    lemma_replace_other(a, "&mdash;"@, b, "&#x2f;"@, "/"@, 1);
    reveal_strlit("&nbsp;");
    reveal_strlit("&mdash;");
    lemma_replace_other(a, "&mdash;"@, b, "&nbsp;"@, " "@, 1);
    lemma_replace_one(a, "&mdash;"@, "\u{2014}"@, b);
    lemma_no_amp_join(a, "\u{2014}"@, b);
}

/// An escaped ampersand followed by a character that opens no other entity
/// is decoded to `&` and nothing else changes.
pub proof fn lemma_decode_amp_in_text(a: Seq<char>, b: Seq<char>)
    requires
        !a.contains('&'),
        !b.contains('&'),
        b.len() > 0,
        b[0] != 'l' && b[0] != 'g' && b[0] != 'q' && b[0] != '#' && b[0] != 'n' && b[0] != 'm',
    ensures
        decode_text_entities(a + "&amp;"@ + b) == a + "&"@ + b,
{
    lemma_entity_literals();
    reveal_strlit("&amp;");
    reveal_strlit("&");
    reveal_strlit("&lt;");
    reveal_strlit("&gt;");
    reveal_strlit("&quot;");
    reveal_strlit("&#x3a;");
    reveal_strlit("&#x2f;");
    reveal_strlit("&nbsp;");
    reveal_strlit("&mdash;");
    lemma_replace_one(a, "&amp;"@, "&"@, b);
    let e = seq!['&', b[0]];
    let r = b.skip(1);
    assert(a + "&"@ + b =~= a + e + r);
    assert forall|i: int| 0 <= i < e.skip(1).len() implies e.skip(1)[i] != '&' by {}
    assert forall|i: int| 0 <= i < r.len() implies r[i] != '&' by {
        assert(r[i] == b[i + 1]);
    }
    lemma_replace_other(a, e, r, "&lt;"@, "<"@, 1);
    lemma_replace_other(a, e, r, "&gt;"@, ">"@, 1);
    lemma_replace_other(a, e, r, "&quot;"@, "\""@, 1);
    lemma_replace_other(a, e, r, "&#x3a;"@, ":"@, 1);
    lemma_replace_other(a, e, r, "&#x2f;"@, "/"@, 1);
    lemma_replace_other(a, e, r, "&nbsp;"@, " "@, 1);
    lemma_replace_other(a, e, r, "&mdash;"@, "\u{2014}"@, 1);
}

/// The ampersand is decoded first, so an escaped entity such as `&amp;lt;`
/// comes out decoded twice, as the entity it spells.
pub proof fn lemma_decode_amp_first(a: Seq<char>, b: Seq<char>)
    requires
        !a.contains('&'),
        !b.contains('&'),
    ensures
        decode_text_entities(a + "&amp;lt;"@ + b) == a + "<"@ + b,
{
    lemma_entity_literals();
    reveal_strlit("&amp;");
    reveal_strlit("&amp;lt;");
    reveal_strlit("lt;");
    reveal_strlit("&");
    reveal_strlit("&lt;");
    let t = "lt;"@ + b;
    assert forall|i: int| 0 <= i < t.len() implies t[i] != '&' by {
        if i >= 3 {
            assert(t[i] == b[i - 3]);
        }
    }
    assert(a + "&amp;lt;"@ + b =~= a + "&amp;"@ + t);
    lemma_replace_one(a, "&amp;"@, "&"@, t);
    assert(a + "&"@ + t =~= a + "&lt;"@ + b);
    lemma_replace_other(a, "&lt;"@, b, "&amp;"@, "&"@, 1);
    lemma_decode_lt(a, b);
}

/// In running text whose only `&` opens one entity, that entity is
/// decoded in place and nothing else changes: `&lt;` gives `<`, `&gt;` gives
/// `>`, `&quot;` gives `"`, `&#x3a;` gives `:`, `&#x2f;` gives `/`, `&nbsp;`
/// gives a space and `&mdash;` gives an em dash.
pub proof fn lemma_decode_entity_in_text(a: Seq<char>, b: Seq<char>)
    requires
        !a.contains('&'),
        !b.contains('&'),
    ensures
        decode_text_entities(a + "&lt;"@ + b) == a + "<"@ + b,
        decode_text_entities(a + "&gt;"@ + b) == a + ">"@ + b,
        decode_text_entities(a + "&quot;"@ + b) == a + "\""@ + b,
        decode_text_entities(a + "&#x3a;"@ + b) == a + ":"@ + b,
        decode_text_entities(a + "&#x2f;"@ + b) == a + "/"@ + b,
        decode_text_entities(a + "&nbsp;"@ + b) == a + " "@ + b,
        decode_text_entities(a + "&mdash;"@ + b) == a + "\u{2014}"@ + b,
{
    lemma_decode_lt(a, b);
    lemma_decode_gt(a, b);
    lemma_decode_quot(a, b);
    lemma_decode_colon(a, b);
    lemma_decode_slash(a, b);
    lemma_decode_nbsp(a, b);
    lemma_decode_mdash(a, b);
}


} // verus!
