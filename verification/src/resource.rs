//! Opening a link activity: retrying, telling files from pages, choosing the
//! page's content, and naming what is downloaded.
use vstd::prelude::*;
use crate::api::{attr_or_empty, attr_or_empty_exec};
use crate::dom::{first_inner_html, names_view, nodes_view, select_fragment, spec_first_inner_html, spec_select_fragment, NodeView};
use crate::html2text::{spec_strip_tag_regions, try_strip_tag_regions};
use crate::pattern::opt_str_view;
use crate::text::{
    chars_of, find, lemma_find, split, split_exec, str_trim, string_of,
    trim, trim_exec,
};
use crate::unicode::{ascii_lower, is_ascii_text, is_alphanumeric, spec_is_alphanumeric, lowercase, to_lowercase};

verus! {

// ---------------------------------------------------------------------------
// Fetching
// ---------------------------------------------------------------------------

/// How many times the link is requested before giving up.
pub const FETCH_ATTEMPTS: u64 = 3;

/// What follows request number `attempt` (from 1) of the link.
#[derive(PartialEq, Eq, Structural, Clone, Copy, Debug)]
pub enum FetchStep {
    /// The request was sent: use its reply.
    Use,
    /// It failed: pause this many milliseconds and send it again.
    Retry { pause_ms: u64 },
    /// It failed and no attempt is left.
    GiveUp,
}

/// What follows request number `attempt`: its reply where it was sent;
/// after a failure, a pause of `1000 * attempt` milliseconds and a further
/// attempt while fewer than [`FETCH_ATTEMPTS`] were made, else giving up.
pub open spec fn spec_fetch_step(attempt: u64, sent: bool) -> FetchStep {
    if sent {
        FetchStep::Use
    } else if attempt < FETCH_ATTEMPTS {
        FetchStep::Retry { pause_ms: (1000 * attempt) as u64 }
    } else {
        FetchStep::GiveUp
    }
}

/// See [`spec_fetch_step`].
pub fn fetch_step(attempt: u64, sent: bool) -> (r: FetchStep)
    ensures
        r == spec_fetch_step(attempt, sent),
{
    if sent {
        FetchStep::Use
    } else if attempt < FETCH_ATTEMPTS {
        FetchStep::Retry { pause_ms: 1000 * attempt }
    } else {
        FetchStep::GiveUp
    }
}

/// The link is requested at most [`FETCH_ATTEMPTS`] times: counting from 1,
/// a further attempt follows only a failed one before the last.
pub proof fn lemma_fetch_attempts_bounded(attempt: u64, sent: bool)
    ensures
        spec_fetch_step(attempt, sent) is Retry ==> !sent && attempt + 1 <= FETCH_ATTEMPTS,
{
}

// ---------------------------------------------------------------------------
// Files
// ---------------------------------------------------------------------------

/// The text after the last occurrence of `c` (all of `s` where none).
pub open spec fn after_last(s: Seq<char>, c: char) -> Seq<char> {
    split(s, c).last()
}

/// The text before the first occurrence of `c` (all of `s` where none).
pub open spec fn before_first(s: Seq<char>, c: char) -> Seq<char> {
    split(s, c)[0]
}

pub proof fn lemma_split_nonempty(s: Seq<char>, c: char)
    ensures
        split(s, c).len() > 0,
    decreases s.len(),
{
    match find(s, seq![c]) {
        Some(i) => {
            lemma_find(s, seq![c]);
            lemma_split_nonempty(s.skip(i + 1), c);
        },
        None => {},
    }
}

/// The file extensions that are downloaded rather than shown.
pub open spec fn is_file_extension(e: Seq<char>) -> bool {
    e == "pdf"@ || e == "zip"@ || e == "mp4"@ || e == "png"@ || e == "jpg"@ || e == "jpeg"@ || e == "gif"@
}

/// A link leads to a file to download: its lowercased address ends in one of
/// the file extensions after its last `.`.
pub open spec fn spec_is_file_url(url: Seq<char>) -> bool {
    is_file_extension(after_last(lowercase(url), '.'))
}

fn last_piece(s: &[char], c: char) -> (r: Vec<char>)
    ensures
        r@ == after_last(s@, c),
{
    let parts = split_exec(s, c);
    proof {
        lemma_split_nonempty(s@, c);
    }
    let n = parts.len();
    assert(parts@[n - 1]@ == split(s@, c)[n - 1]);
    let mut out: Vec<char> = Vec::new();
    crate::text::append_chars(&mut out, parts[n - 1].as_slice());
    out
}

fn first_piece(s: &[char], c: char) -> (r: Vec<char>)
    ensures
        r@ == before_first(s@, c),
{
    let parts = split_exec(s, c);
    proof {
        lemma_split_nonempty(s@, c);
    }
    assert(parts@[0]@ == split(s@, c)[0]);
    let mut out: Vec<char> = Vec::new();
    crate::text::append_chars(&mut out, parts[0].as_slice());
    out
}

/// See [`spec_is_file_url`].
pub fn is_file_url(url: &str) -> (b: bool)
    ensures
        b == spec_is_file_url(url@),
{
    let u = chars_of(url);
    let low = to_lowercase(u.as_slice());
    let e = last_piece(low.as_slice(), '.');
    let es = string_of(e.as_slice());
    crate::text::str_eq(es.as_str(), "pdf") || crate::text::str_eq(es.as_str(), "zip")
        || crate::text::str_eq(es.as_str(), "mp4") || crate::text::str_eq(es.as_str(), "png")
        || crate::text::str_eq(es.as_str(), "jpg") || crate::text::str_eq(es.as_str(), "jpeg")
        || crate::text::str_eq(es.as_str(), "gif")
}

/// The text after the last `c` of `x`, `c` and `y` is `y` when `y` holds no
/// `c`.
proof fn lemma_after_last_tail(x: Seq<char>, c: char, y: Seq<char>)
    requires
        !y.contains(c),
    ensures
        after_last(x + seq![c] + y, c) == y,
    decreases x.len(),
{
    let s = x + seq![c] + y;
    if x.contains(c) {
        let i = choose|i: int| 0 <= i < x.len() && x[i] == c;
        let i0 = first_index_of(x, c, i);
        assert(s[i0] == x[i0]);
        assert forall|j: int| 0 <= j < i0 implies s[j] != c by {
            assert(s[j] == x[j]);
        }
        crate::text::lemma_split_step(s, c, i0);
        assert(s.skip(i0 + 1) =~= x.skip(i0 + 1) + seq![c] + y);
        lemma_after_last_tail(x.skip(i0 + 1), c, y);
        lemma_split_nonempty(s.skip(i0 + 1), c);
    } else {
        assert(s[x.len() as int] == c);
        assert forall|j: int| 0 <= j < x.len() implies s[j] != c by {
            assert(s[j] == x[j]);
        }
        crate::text::lemma_split_step(s, c, x.len() as int);
        assert(s.skip(x.len() as int + 1) =~= y);
        crate::text::lemma_split_none(y, c);
    }
}

/// The first position of `c` in `x`, given one at `i`.
proof fn first_index_of(x: Seq<char>, c: char, i: int) -> (k: int)
    requires
        0 <= i < x.len(),
        x[i] == c,
    ensures
        0 <= k <= i,
        x[k] == c,
        forall|j: int| 0 <= j < k ==> x[j] != c,
    decreases i,
{
    if exists|j: int| 0 <= j < i && x[j] == c {
        let j = choose|j: int| 0 <= j < i && x[j] == c;
        first_index_of(x, c, j)
    } else {
        i
    }
}

/// A link whose ASCII address ends in `.` and a tail without `.` leads to a
/// file to download exactly when the lowercased tail is `pdf`, `zip`, `mp4`,
/// `png`, `jpg`, `jpeg` or `gif`.
pub proof fn lemma_file_url_extension(base: Seq<char>, tail: Seq<char>)
    requires
        is_ascii_text(base),
        is_ascii_text(tail),
        !tail.contains('.'),
    ensures
        spec_is_file_url(base + "."@ + tail) <==> (lowercase(tail) == "pdf"@ || lowercase(tail) == "zip"@
            || lowercase(tail) == "mp4"@ || lowercase(tail) == "png"@ || lowercase(tail) == "jpg"@
            || lowercase(tail) == "jpeg"@ || lowercase(tail) == "gif"@),
{
    reveal_strlit(".");
    let dot = "."@;
    assert(dot =~= seq!['.']);
    let url = base + dot + tail;
    assert forall|i: int| 0 <= i < url.len() implies (#[trigger] url[i] as u32) < 0x80 by {
        if i < base.len() {
            assert(url[i] == base[i]);
        } else if i == base.len() {
            assert(url[i] == '.');
        } else {
            assert(url[i] == tail[i - base.len() - 1]);
        }
    }
    let lb = lowercase(base);
    let lt = lowercase(tail);
    assert(lowercase(url) =~= lb + seq!['.'] + lt);
    assert forall|i: int| 0 <= i < lt.len() implies lt[i] != '.' by {
        assert(tail[i] != '.');
        assert(lt[i] == ascii_lower(tail[i]));
    }
    lemma_after_last_tail(lb, '.', lt);
}

/// The name a download is stored under: the last path segment of its
/// address, without the query.
pub open spec fn spec_file_name_from_url(url: Seq<char>) -> Seq<char> {
    before_first(after_last(url, '/'), '?')
}

/// See [`spec_file_name_from_url`].
pub fn file_name_from_url(url: &str) -> (r: String)
    ensures
        r@ == spec_file_name_from_url(url@),
{
    let u = chars_of(url);
    let last = last_piece(u.as_slice(), '/');
    let name = first_piece(last.as_slice(), '?');
    string_of(name.as_slice())
}

/// A character kept in a folder name.
pub open spec fn is_safe_char(c: char) -> bool {
    spec_is_alphanumeric(c) || c == '_' || c == '-' || c == ' '
}

/// The characters of `s` that are kept in a folder name.
pub open spec fn safe_chars(s: Seq<char>) -> Seq<char> {
    s.filter(|c: char| is_safe_char(c))
}

/// The folder a link's downloads go to: the link's name with every character
/// but letters, digits, `_`, `-` and spaces dropped, then trimmed.
pub open spec fn spec_safe_name(name: Seq<char>) -> Seq<char> {
    trim(safe_chars(name))
}

/// See [`spec_safe_name`].
pub fn safe_name(name: &str) -> (r: String)
    ensures
        r@ == spec_safe_name(name@),
{
    let n = chars_of(name);
    let mut kept: Vec<char> = Vec::new();
    let mut i: usize = 0;
    while i < n.len()
        invariant
            i <= n@.len(),
            kept@ == safe_chars(n@.take(i as int)),
        decreases n.len() - i,
    {
        let c = n[i];
        proof {
            assert(n@.take(i + 1).drop_last() =~= n@.take(i as int));
            reveal_with_fuel(Seq::<_>::filter, 1);
        }
        if is_alphanumeric(c) || c == '_' || c == '-' || c == ' ' {
            kept.push(c);
        }
        i = i + 1;
    }
    assert(n@.take(n@.len() as int) =~= n@);
    let t = trim_exec(kept.as_slice());
    string_of(t.as_slice())
}

/// Every character of a folder name is a letter, digit, `_`, `-` or space,
/// so a folder name never holds a path separator.
pub proof fn lemma_safe_name_chars(name: Seq<char>)
    ensures
        forall|i: int| 0 <= i < spec_safe_name(name).len() ==> is_safe_char(#[trigger] spec_safe_name(name)[i]),
{
    let s = safe_chars(name);
    crate::text::lemma_trim_keeps_chars(s);
    assert forall|i: int| 0 <= i < spec_safe_name(name).len() implies is_safe_char(#[trigger] spec_safe_name(name)[i]) by {
        let c = spec_safe_name(name)[i];
        assert(s.contains(c));
        let j = choose|j: int| 0 <= j < s.len() && s[j] == c;
        name.lemma_filter_pred(|c: char| is_safe_char(c), j);
    }
}

/// Data that begins like an image file that is kept: at least 8 bytes whose
/// first four are those of a PNG, a GIF or a RIFF file (or the three of a
/// JPEG, which four bytes never equal).
pub open spec fn spec_is_image_data(data: Seq<u8>) -> bool {
    data.len() >= 8 && {
        let head = data.take(4);
        head == seq![0x89u8, 0x50u8, 0x4Eu8, 0x47u8] || head == seq![0xFFu8, 0xD8u8, 0xFFu8] || head == seq![
            0x47u8,
            0x49u8,
            0x46u8,
            0x38u8,
        ] || head == seq![0x52u8, 0x49u8, 0x46u8, 0x46u8]
    }
}

/// See [`spec_is_image_data`].
pub fn is_image_data(data: &[u8]) -> (b: bool)
    ensures
        b == spec_is_image_data(data@),
{
    if data.len() < 8 {
        return false;
    }
    let (a, b, c, d) = (data[0], data[1], data[2], data[3]);
    let ghost head = data@.take(4);
    proof {
        assert(head.len() == 4);
        assert(head[0] == a && head[1] == b && head[2] == c && head[3] == d);
        assert(head != seq![0xFFu8, 0xD8u8, 0xFFu8]);
    }
    let png = a == 0x89 && b == 0x50 && c == 0x4E && d == 0x47;
    let gif = a == 0x47 && b == 0x49 && c == 0x46 && d == 0x38;
    let riff = a == 0x52 && b == 0x49 && c == 0x46 && d == 0x46;
    proof {
        if png {
            assert(head =~= seq![0x89u8, 0x50u8, 0x4Eu8, 0x47u8]);
        }
        if gif {
            assert(head =~= seq![0x47u8, 0x49u8, 0x46u8, 0x38u8]);
        }
        if riff {
            assert(head =~= seq![0x52u8, 0x49u8, 0x46u8, 0x46u8]);
        }
        if head == seq![0x89u8, 0x50u8, 0x4Eu8, 0x47u8] {
            assert(png);
        }
        if head == seq![0x47u8, 0x49u8, 0x46u8, 0x38u8] {
            assert(gif);
        }
        if head == seq![0x52u8, 0x49u8, 0x46u8, 0x46u8] {
            assert(riff);
        }
    }
    png || gif || riff
}

// ---------------------------------------------------------------------------
// The page's content
// ---------------------------------------------------------------------------

/// The places where a page's content is looked for, in order.
pub open spec fn content_selectors() -> Seq<Seq<char>> {
    seq![
        ".resourcecontent"@,
        ".generalbox"@,
        "#region-main"@,
        "[role='main']"@,
        ".no-overflow"@,
        ".card-body"@,
        "#page-content"@,
        ".activity-header"@,
    ]
}

fn content_selectors_exec() -> (r: Vec<&'static str>)
    ensures
        names_view(r@) == content_selectors(),
{
    let mut v: Vec<&'static str> = Vec::new();
    v.push(".resourcecontent");
    v.push(".generalbox");
    v.push("#region-main");
    v.push("[role='main']");
    v.push(".no-overflow");
    v.push(".card-body");
    v.push("#page-content");
    v.push(".activity-header");
    assert(names_view(v@) =~= content_selectors());
    v
}

/// The first place among `sels` whose first element has inner HTML that is
/// not blank, with that HTML; `Some(None)` where there is none; `None` where
/// a selector tried is refused.
pub open spec fn first_content(body: Seq<char>, sels: Seq<Seq<char>>) -> Option<Option<(Seq<char>, Seq<char>)>>
    decreases sels.len(),
{
    if sels.len() == 0 {
        Some(None)
    } else {
        match spec_first_inner_html(body, sels[0]) {
            None => None,
            Some(Some(h)) => if trim(h).len() > 0 {
                Some(Some((sels[0], h)))
            } else {
                first_content(body, sels.skip(1))
            },
            Some(None) => first_content(body, sels.skip(1)),
        }
    }
}

/// The content of a link page and where it was found: the first place with
/// content that is not blank; else the page body with its styles removed;
/// else nothing (no source, empty content). `None` where a selector is
/// refused or the styles cannot be removed.
pub open spec fn spec_page_content(body: Seq<char>) -> Option<(Option<Seq<char>>, Seq<char>)> {
    match first_content(body, content_selectors()) {
        None => None,
        Some(Some(found)) => Some((Some(found.0), found.1)),
        Some(None) => match spec_first_inner_html(body, "body"@) {
            None => None,
            Some(None) => Some((None, seq![])),
            Some(Some(h)) => match spec_strip_tag_regions(h, "<style"@, "</style>"@) {
                None => None,
                Some(c) => Some((Some("<body>"@), c)),
            },
        },
    }
}

/// See [`spec_page_content`].
pub fn page_content(body: &str) -> (r: Option<(Option<String>, String)>)
    ensures
        match r {
            Some(p) => spec_page_content(body@) == Some((opt_str_view(p.0), p.1@)),
            None => spec_page_content(body@) is None,
        },
{
    let sels = content_selectors_exec();
    let ghost ss = names_view(sels@);
    let mut i: usize = 0;
    assert(ss.skip(0) =~= ss);
    while i < sels.len()
        invariant
            i <= sels@.len(),
            ss == names_view(sels@),
            ss == content_selectors(),
            first_content(body@, ss) == first_content(body@, ss.skip(i as int)),
        decreases sels.len() - i,
    {
        proof {
            assert(ss.skip(i as int)[0] == ss[i as int]);
            assert(ss.skip(i as int).skip(1) =~= ss.skip(i + 1));
        }
        match first_inner_html(body, sels[i]) {
            None => return None,
            Some(Some(h)) => {
                if !is_blank(h.as_str()) {
                    return Some((Some(sels[i].to_owned()), h));
                }
            },
            Some(None) => {},
        }
        i = i + 1;
    }
    match first_inner_html(body, "body") {
        None => None,
        Some(None) => Some((None, String::new())),
        Some(Some(h)) => match try_strip_tag_regions(h.as_str(), "<style", "</style>") {
            None => None,
            Some(c) => Some((Some("<body>".to_owned()), c)),
        },
    }
}

/// Whether a text is empty once trimmed.
pub fn is_blank(s: &str) -> (b: bool)
    ensures
        b == (trim(s@).len() == 0),
{
    str_trim(s).as_str().is_empty()
}

// ---------------------------------------------------------------------------
// Images
// ---------------------------------------------------------------------------

/// What joining a reference to a base address gives, as the `url` crate
/// does it: `None` where the base is refused, `Some(None)` where the join
/// is refused.
pub uninterp spec fn spec_url_join(base: Seq<char>, reference: Seq<char>) -> Option<Option<Seq<char>>>;

/// Parses `base` with `url::Url::parse` and joins `reference` with
/// `Url::join`, serializing the result. The contract names the result.
#[verifier::external_body]
fn url_join(base: &str, reference: &str) -> (r: Option<Option<String>>)
    ensures
        match r {
            Some(Some(s)) => spec_url_join(base@, reference@) == Some(Some(s@)),
            Some(None) => spec_url_join(base@, reference@) == Some(None::<Seq<char>>),
            None => spec_url_join(base@, reference@) is None,
        },
{
    match url::Url::parse(base) {
        Ok(u) => Some(u.join(reference).ok().map(|j| j.to_string())),
        Err(_) => None,
    }
}

/// An image of the content, as listed and stored.
pub enum ImageEntry {
    /// The page address is refused as a base.
    BadBase,
    /// The text shown for the image, its full address and its file name.
    Image { label: String, url: String, file_name: String },
}

pub open spec fn image_entry_view(e: ImageEntry) -> Option<(Seq<char>, Seq<char>, Seq<char>)> {
    match e {
        ImageEntry::BadBase => None,
        ImageEntry::Image { label, url, file_name } => Some((label@, url@, file_name@)),
    }
}

/// The entry of one `img` element: its alternative text (`image` where
/// empty), the address its source resolves to against the page (the source
/// itself where the join is refused), and the file name of that address.
pub open spec fn image_entry(n: NodeView, page_url: Seq<char>) -> Option<(Seq<char>, Seq<char>, Seq<char>)> {
    let src = attr_or_empty(n, 0);
    let alt = attr_or_empty(n, 1);
    match spec_url_join(page_url, src) {
        None => None,
        Some(j) => {
            let full = match j {
                Some(f) => f,
                None => src,
            };
            Some((if alt.len() == 0 { "image"@ } else { alt }, full, spec_file_name_from_url(full)))
        },
    }
}

/// The images of a page's content (parsed as a fragment), in order; `None`
/// where the selector is refused.
pub open spec fn spec_images(content: Seq<char>, page_url: Seq<char>) -> Option<Seq<Option<(Seq<char>, Seq<char>, Seq<char>)>>> {
    match spec_select_fragment(content, "img"@, seq!["src"@, "alt"@]) {
        None => None,
        Some(ns) => Some(Seq::new(ns.len(), |i: int| image_entry(ns[i], page_url))),
    }
}

/// See [`spec_images`].
pub fn images(content: &str, page_url: &str) -> (r: Option<Vec<ImageEntry>>)
    ensures
        match r {
            Some(v) => spec_images(content@, page_url@) == Some(v@.map_values(|e: ImageEntry| image_entry_view(e))),
            None => spec_images(content@, page_url@) is None,
        },
{
    let mut names: Vec<&'static str> = Vec::new();
    names.push("src");
    names.push("alt");
    assert(names_view(names@) =~= seq!["src"@, "alt"@]);
    let ns = match select_fragment(content, "img", names.as_slice()) {
        Some(n) => n,
        None => return None,
    };
    let ghost nv = nodes_view(ns@);
    let mut out: Vec<ImageEntry> = Vec::new();
    let mut i: usize = 0;
    while i < ns.len()
        invariant
            i <= ns@.len(),
            nv == nodes_view(ns@),
            out@.len() == i,
            forall|k: int| 0 <= k < i ==> #[trigger] image_entry_view(out@[k]) == image_entry(nv[k], page_url@),
        decreases ns.len() - i,
    {
        let n = &ns[i];
        assert(nv[i as int] == n@);
        let src = attr_or_empty_exec(n, 0);
        let alt = attr_or_empty_exec(n, 1);
        let entry = match url_join(page_url, src.as_str()) {
            None => ImageEntry::BadBase,
            Some(j) => {
                let full = match j {
                    Some(f) => f,
                    None => src,
                };
                let label = if alt.as_str().is_empty() { "image".to_owned() } else { alt };
                let file_name = file_name_from_url(full.as_str());
                ImageEntry::Image { label, url: full, file_name }
            },
        };
        out.push(entry);
        i = i + 1;
    }
    assert(out@.map_values(|e: ImageEntry| image_entry_view(e)) =~= Seq::new(
        nv.len(),
        |k: int| image_entry(nv[k], page_url@),
    ));
    Some(out)
}


/// The page of a link activity.
pub fn link_url(id: u32) -> (r: String)
    ensures
        r@ == crate::api::spec_moodle_url_with("/mod/url/view.php?id="@, id, ""@),
{
    crate::api::moodle_url_with("/mod/url/view.php?id=", id, "")
}

} // verus!
