//! Reading course, section and activity listings out of Moodle pages.
use vstd::prelude::*;
use crate::types::{ActivityType, Course, QuizAssignment, Section};
use crate::dom::{select, select_nested, spec_select, spec_select_nested, names_view, nodes_view, groups_view, Node, NodeView};
use crate::text::{
    str_contains, str_trim, str_replace, contains, trim, replace, decimal, decimal_exec, append_chars,
    string_of, chars_of, find, matches_at, find_exec, lemma_find, parse_u32, parse_u32_exec, skip_chars, split, split_exec,
    starts_with, starts_with_exec,
};

verus! {

/// The rest of the first piece of `parts` that begins with `prefix`.
pub open spec fn first_with_prefix(parts: Seq<Seq<char>>, prefix: Seq<char>) -> Option<Seq<char>>
    decreases parts.len(),
{
    if parts.len() == 0 {
        None
    } else if starts_with(parts[0], prefix) {
        Some(parts[0].skip(prefix.len() as int))
    } else {
        first_with_prefix(parts.skip(1), prefix)
    }
}

/// The number given to the first query parameter of `href` that begins with
/// `prefix`: the query starts after the first `?` and its parameters are
/// separated by `&`. `None` without a `?`, without such a parameter, or when
/// what follows the prefix is not a `u32`.
pub open spec fn spec_extract_id(href: Seq<char>, prefix: Seq<char>) -> Option<u32> {
    match find(href, seq!['?']) {
        None => None,
        Some(q) => match first_with_prefix(split(href.skip(q + 1), '&'), prefix) {
            None => None,
            Some(rest) => parse_u32(rest),
        },
    }
}

/// Reads a numeric parameter out of a link such as `course/view.php?id=42`.
pub fn extract_id_from_href(href: &str, prefix: &str) -> (r: Option<u32>)
    ensures
        r == spec_extract_id(href@, prefix@),
{
    let h = chars_of(href);
    let p = chars_of(prefix);
    let mut qm: Vec<char> = Vec::new();
    qm.push('?');
    assert(qm@ =~= seq!['?']);
    let q = match find_exec(h.as_slice(), qm.as_slice()) {
        Some(q) => q,
        None => return None,
    };
    assert(find(h@, seq!['?']) == Some(q as int));
    proof {
        lemma_find(h@, seq!['?']);
        assert(matches_at(h@, seq!['?'], q as int));
        assert(seq!['?'].len() == 1);
        assert(q + 1 <= h@.len());
    }
    let hlen = h.len();
    assert(q + 1 <= hlen);
    let query = skip_chars(h.as_slice(), q + 1);
    let parts = split_exec(query.as_slice(), '&');
    let ghost ps = split(query@, '&');
    assert(query@ == href@.skip(q + 1));
    let mut i: usize = 0;
    assert(ps.skip(0) =~= ps);
    while i < parts.len()
        invariant
            i <= parts@.len(),
            parts@.len() == ps.len(),
            forall|k: int| 0 <= k < parts@.len() ==> #[trigger] parts@[k]@ == ps[k],
            first_with_prefix(ps, p@) == first_with_prefix(ps.skip(i as int), p@),
            ps == split(href@.skip(q + 1), '&'),
            find(href@, seq!['?']) == Some(q as int),
            p@ == prefix@,
        decreases parts.len() - i,
    {
        proof {
            assert(ps.skip(i as int)[0] == ps[i as int]);
            assert(ps.skip(i as int).skip(1) =~= ps.skip(i + 1));
        }
        if starts_with_exec(parts[i].as_slice(), p.as_slice()) {
            let rest = skip_chars(parts[i].as_slice(), p.len());
            assert(first_with_prefix(ps.skip(i as int), p@) == Some(ps[i as int].skip(p@.len() as int)));
            let r = parse_u32_exec(rest.as_slice());
            return r;
        }
        i = i + 1;
    }
    None
}


// ---------------------------------------------------------------------------
// Listings
// ---------------------------------------------------------------------------

/// The value of the `k`-th attribute asked of a node, or the empty text.
pub open spec fn attr_or_empty(n: NodeView, k: int) -> Seq<char> {
    if 0 <= k < n.attrs.len() {
        match n.attrs[k] {
            Some(v) => v,
            None => seq![],
        }
    } else {
        seq![]
    }
}

/// The value of the `k`-th attribute of an executable node, or the empty text.
pub fn attr_or_empty_exec(n: &Node, k: usize) -> (r: String)
    ensures
        r@ == attr_or_empty(n@, k as int),
{
    if k < n.attrs.len() {
        match &n.attrs[k] {
            Some(v) => v.clone(),
            None => String::new(),
        }
    } else {
        String::new()
    }
}

pub open spec fn course_view(c: Course) -> (u32, Seq<char>) {
    (c.id, c.name@)
}

pub open spec fn courses_view(v: Seq<Course>) -> Seq<(u32, Seq<char>)> {
    v.map_values(|c: Course| course_view(c))
}

/// The identifiers of a listing are all different.
pub open spec fn distinct_ids<T>(v: Seq<(u32, T)>) -> bool {
    forall|i: int, j: int| 0 <= i < j < v.len() ==> v[i].0 != v[j].0
}

/// Some entry of the listing has identifier `id`.
pub open spec fn has_id<T>(v: Seq<(u32, T)>, id: u32) -> bool {
    exists|i: int| 0 <= i < v.len() && v[i].0 == id
}

/// What a link of a course listing gives: the course's number, read from an
/// address that leads to a course page, and the link's trimmed text, which
/// must not be empty.
pub open spec fn course_link(n: NodeView) -> Option<(u32, Seq<char>)> {
    let href = attr_or_empty(n, 0);
    let text = trim(n.text);
    if contains(href, "course/view.php?id="@) && text.len() > 0 {
        match spec_extract_id(href, "id="@) {
            Some(id) => Some((id, text)),
            None => None,
        }
    } else {
        None
    }
}

/// The courses that the links give, in order, each number kept once (the
/// first link wins), added to `acc`.
pub open spec fn collect_courses(links: Seq<NodeView>, acc: Seq<(u32, Seq<char>)>) -> Seq<(u32, Seq<char>)>
    decreases links.len(),
{
    if links.len() == 0 {
        acc
    } else {
        let acc2 = match course_link(links[0]) {
            Some(c) => if has_id(acc, c.0) { acc } else { acc.push(c) },
            None => acc,
        };
        collect_courses(links.skip(1), acc2)
    }
}

/// The courses listed on a page; `None` where the link selector is refused.
pub open spec fn spec_courses_in_page(body: Seq<char>) -> Option<Seq<(u32, Seq<char>)>> {
    match spec_select(body, "a"@, seq!["href"@]) {
        Some(links) => Some(collect_courses(links, seq![])),
        None => None,
    }
}

/// Whether a course with number `id` is in the listing.
fn courses_have_id(v: &Vec<Course>, id: u32) -> (b: bool)
    ensures
        b == has_id(courses_view(v@), id),
{
    let mut i: usize = 0;
    while i < v.len()
        invariant
            i <= v@.len(),
            forall|k: int| 0 <= k < i ==> v@[k].id != id,
        decreases v.len() - i,
    {
        if v[i].id == id {
            assert(courses_view(v@)[i as int].0 == id);
            return true;
        }
        i = i + 1;
    }
    assert forall|k: int| 0 <= k < courses_view(v@).len() implies courses_view(v@)[k].0 != id by {
        assert(courses_view(v@)[k].0 == v@[k].id);
    }
    false
}

/// The names asked of a link.
fn href_name() -> (r: Vec<&'static str>)
    ensures
        names_view(r@) == seq!["href"@],
{
    let mut v: Vec<&'static str> = Vec::new();
    v.push("href");
    assert(names_view(v@) =~= seq!["href"@]);
    v
}

/// The courses that the links of a page lead to, each number once, in the
/// order of the page; `None` where the link selector is refused.
pub fn courses_in_page(body: &str) -> (r: Option<Vec<Course>>)
    ensures
        match r {
            Some(v) => spec_courses_in_page(body@) == Some(courses_view(v@)),
            None => spec_courses_in_page(body@) is None,
        },
{
    let names = href_name();
    let links = match select(body, "a", names.as_slice()) {
        Some(l) => l,
        None => return None,
    };
    let ghost ls = nodes_view(links@);
    let mut out: Vec<Course> = Vec::new();
    let mut i: usize = 0;
    assert(ls.skip(0) =~= ls);
    assert(courses_view(out@) =~= Seq::<(u32, Seq<char>)>::empty());
    while i < links.len()
        invariant
            i <= links@.len(),
            ls == nodes_view(links@),
            collect_courses(ls, seq![]) == collect_courses(ls.skip(i as int), courses_view(out@)),
        decreases links.len() - i,
    {
        let link = &links[i];
        let href = attr_or_empty_exec(link, 0);
        let text = str_trim(link.text.as_str());
        proof {
            assert(ls.skip(i as int)[0] == ls[i as int]);
            assert(ls.skip(i as int).skip(1) =~= ls.skip(i + 1));
            assert(ls[i as int] == link@);
            reveal_strlit("");
        }
        if str_contains(href.as_str(), "course/view.php?id=") && !text.as_str().is_empty() {
            match extract_id_from_href(href.as_str(), "id=") {
                Some(id) => {
                    if !courses_have_id(&out, id) {
                        let ghost before = courses_view(out@);
                        out.push(Course { id, name: text });
                        assert(courses_view(out@) =~= before.push((id, text@)));
                    }
                },
                None => {},
            }
        }
        i = i + 1;
    }
    Some(out)
}


/// A course listing never holds two courses with the same number.
pub proof fn lemma_courses_distinct(body: Seq<char>)
    ensures
        spec_courses_in_page(body) matches Some(v) ==> distinct_ids(v),
{
    match spec_select(body, "a"@, seq!["href"@]) {
        Some(links) => lemma_collect_courses_distinct(links, seq![]),
        None => {},
    }
}

proof fn lemma_collect_courses_distinct(links: Seq<NodeView>, acc: Seq<(u32, Seq<char>)>)
    requires
        distinct_ids(acc),
    ensures
        distinct_ids(collect_courses(links, acc)),
    decreases links.len(),
{
    if links.len() > 0 {
        let acc2 = match course_link(links[0]) {
            Some(c) => if has_id(acc, c.0) { acc } else { acc.push(c) },
            None => acc,
        };
        match course_link(links[0]) {
            Some(c) => {
                if !has_id(acc, c.0) {
                    assert forall|i: int, j: int| 0 <= i < j < acc2.len() implies acc2[i].0 != acc2[j].0 by {
                        if j == acc.len() {
                            assert(acc2[i] == acc[i]);
                        }
                    }
                }
            },
            None => {},
        }
        lemma_collect_courses_distinct(links.skip(1), acc2);
    }
}

// ---------------------------------------------------------------------------
// Sections
// ---------------------------------------------------------------------------

pub open spec fn section_view(s: Section) -> (u32, Seq<char>) {
    (s.id, s.name@)
}

pub open spec fn sections_view(v: Seq<Section>) -> Seq<(u32, Seq<char>)> {
    v.map_values(|s: Section| section_view(s))
}

/// The number of a section element: its `id` with `section-` removed, read as
/// a number, or 0.
pub open spec fn section_number(id: Seq<char>) -> u32 {
    match parse_u32(replace(id, "section-"@, ""@)) {
        Some(n) => n,
        None => 0,
    }
}

/// The name of a section: the trimmed text of its first heading, or
/// `Section <number>`.
pub open spec fn section_name(headings: Seq<NodeView>, number: u32) -> Seq<char> {
    if headings.len() > 0 {
        trim(headings[0].text)
    } else {
        "Section "@ + decimal(number as nat)
    }
}

/// The sections of a course page that have a positive number, in order.
pub open spec fn collect_sections(groups: Seq<(NodeView, Seq<NodeView>)>) -> Seq<(u32, Seq<char>)>
    decreases groups.len(),
{
    if groups.len() == 0 {
        seq![]
    } else {
        let n = section_number(attr_or_empty(groups[0].0, 0));
        let rest = collect_sections(groups.skip(1));
        if n > 0 {
            seq![(n, section_name(groups[0].1, n))] + rest
        } else {
            rest
        }
    }
}

pub open spec fn section_selector() -> Seq<char> {
    ".section"@
}

pub open spec fn heading_selector() -> Seq<char> {
    "h3, .section-title, .sectionname"@
}

/// The sections listed on a course page; `None` where a selector is refused.
pub open spec fn spec_sections_in_page(body: Seq<char>) -> Option<Seq<(u32, Seq<char>)>> {
    match spec_select_nested(body, section_selector(), heading_selector(), seq!["id"@]) {
        Some(groups) => Some(collect_sections(groups)),
        None => None,
    }
}

/// The sections of a course page that have a positive number, with the
/// text of their first heading as name; `None` where a selector is refused.
pub fn sections_in_page(body: &str) -> (r: Option<Vec<Section>>)
    ensures
        match r {
            Some(v) => spec_sections_in_page(body@) == Some(sections_view(v@)),
            None => spec_sections_in_page(body@) is None,
        },
{
    let mut names: Vec<&'static str> = Vec::new();
    names.push("id");
    assert(names_view(names@) =~= seq!["id"@]);
    let groups = match select_nested(body, ".section", "h3, .section-title, .sectionname", names.as_slice()) {
        Some(g) => g,
        None => return None,
    };
    let ghost gs = groups_view(groups@);
    let mut out: Vec<Section> = Vec::new();
    let mut i: usize = groups.len();
    assert(gs.skip(i as int) =~= Seq::<(NodeView, Seq<NodeView>)>::empty());
    assert(sections_view(out@) =~= Seq::<(u32, Seq<char>)>::empty());
    // Built from the back, then reversed into place.
    while i > 0
        invariant
            i <= groups@.len(),
            gs == groups_view(groups@),
            sections_view(out@).reverse() == collect_sections(gs.skip(i as int)),
        decreases i,
    {
        let (sec, heads) = (&groups[i - 1].0, &groups[i - 1].1);
        let id = attr_or_empty_exec(sec, 0);
        proof {
            reveal_strlit("section-");
        }
        let stripped = str_replace(id.as_str(), "section-", "");
        let sc = chars_of(stripped.as_str());
        let n: u32 = match parse_u32_exec(sc.as_slice()) {
            Some(n) => n,
            None => 0,
        };
        proof {
            let t = gs.skip(i - 1);
            assert(t[0] == gs[i - 1]);
            assert(t.skip(1) =~= gs.skip(i as int));
            assert(gs[i - 1].0 == sec@);
            assert(gs[i - 1].1 == nodes_view(heads@));
        }
        if n > 0 {
            let name = if heads.len() > 0 {
                str_trim(heads[0].text.as_str())
            } else {
                let mut v = chars_of("Section ");
                let d = decimal_exec(n as u128);
                append_chars(&mut v, d.as_slice());
                string_of(v.as_slice())
            };
            let ghost before = sections_view(out@);
            out.push(Section { id: n, name });
            proof {
                assert(sections_view(out@) =~= before.push((n, name@)));
                assert(before.push((n, name@)).reverse() =~= seq![(n, name@)] + before.reverse());
            }
        }
        i = i - 1;
    }
    let ghost fwd = sections_view(out@);
    let mut res: Vec<Section> = Vec::new();
    while out.len() > 0
        invariant
            sections_view(res@) + sections_view(out@).reverse() == fwd.reverse(),
        decreases out.len(),
    {
        let ghost before_out = sections_view(out@);
        let ghost before_res = sections_view(res@);
        let last = out.pop().unwrap();
        res.push(last);
        proof {
            assert(before_out =~= sections_view(out@).push(section_view(last)));
            assert(sections_view(res@) =~= before_res.push(section_view(last)));
            assert(before_out.reverse() =~= seq![section_view(last)] + sections_view(out@).reverse());
            assert(sections_view(res@) + sections_view(out@).reverse() =~= before_res + before_out.reverse());
        }
    }
    proof {
        assert(sections_view(out@).reverse() =~= Seq::<(u32, Seq<char>)>::empty());
        assert(sections_view(res@) =~= fwd.reverse());
        assert(gs.skip(0) =~= gs);
        assert(fwd.reverse().reverse() =~= fwd);
    }
    Some(res)
}

/// Every section listed has a positive number.
pub proof fn lemma_sections_numbered(body: Seq<char>)
    ensures
        spec_sections_in_page(body) matches Some(v) ==> forall|i: int| 0 <= i < v.len() ==> v[i].0 > 0,
{
    match spec_select_nested(body, section_selector(), heading_selector(), seq!["id"@]) {
        Some(groups) => lemma_collect_sections_numbered(groups),
        None => {},
    }
}

/// Each section element whose `id` reads as a positive number once
/// `section-` is removed is listed under that number, named by the trimmed
/// text of the first heading inside it, or `Section <number>` where it has
/// none.
pub proof fn lemma_section_named_by_first_heading(body: Seq<char>)
    ensures
        spec_select_nested(body, ".section"@, "h3, .section-title, .sectionname"@, seq!["id"@]) matches Some(groups)
            ==> spec_sections_in_page(body) matches Some(v) && forall|k: int| 0 <= k < groups.len() ==> (parse_u32(
                replace(attr_or_empty(#[trigger] groups[k].0, 0), "section-"@, ""@),
            ) matches Some(n) ==> (n > 0 ==> exists|j: int| 0 <= j < v.len() && #[trigger] v[j] == (n, if groups[k].1.len() > 0 {
                trim(groups[k].1[0].text)
            } else {
                "Section "@ + decimal(n as nat)
            }))),
{
    if let Some(groups) = spec_select_nested(body, section_selector(), heading_selector(), seq!["id"@]) {
        let v = spec_sections_in_page(body).unwrap();
        assert(v == collect_sections(groups));
        assert forall|k: int| 0 <= k < groups.len() implies (parse_u32(
            replace(attr_or_empty(#[trigger] groups[k].0, 0), "section-"@, ""@),
        ) matches Some(n) ==> (n > 0 ==> exists|j: int| 0 <= j < v.len() && #[trigger] v[j] == (n, if groups[k].1.len() > 0 {
            trim(groups[k].1[0].text)
        } else {
            "Section "@ + decimal(n as nat)
        }))) by {
            if let Some(n) = parse_u32(replace(attr_or_empty(groups[k].0, 0), "section-"@, ""@)) {
                if n > 0 {
                    assert(section_number(attr_or_empty(groups[k].0, 0)) == n);
                    lemma_collect_sections_has(groups, k);
                    let j = choose|j: int| 0 <= j < v.len() && #[trigger] v[j] == (n, section_name(groups[k].1, n));
                    assert(v[j] == (n, if groups[k].1.len() > 0 {
                        trim(groups[k].1[0].text)
                    } else {
                        "Section "@ + decimal(n as nat)
                    }));
                }
            }
        }
    }
}

/// Each listed section comes from a section element whose `id` reads as its
/// number once `section-` is removed, and is named by the trimmed text of the
/// first heading inside it, or `Section <number>` where it has none.
pub proof fn lemma_section_from_element(body: Seq<char>)
    ensures
        spec_select_nested(body, ".section"@, "h3, .section-title, .sectionname"@, seq!["id"@]) matches Some(groups)
            ==> spec_sections_in_page(body) matches Some(v) && forall|j: int| 0 <= j < v.len() ==> (#[trigger] v[j]).0 > 0 && exists|k: int|
                0 <= k < groups.len() && parse_u32(replace(attr_or_empty(#[trigger] groups[k].0, 0), "section-"@, ""@))
                == Some(v[j].0) && v[j].1 == (if groups[k].1.len() > 0 {
                    trim(groups[k].1[0].text)
                } else {
                    "Section "@ + decimal(v[j].0 as nat)
                }),
{
    if let Some(groups) = spec_select_nested(body, section_selector(), heading_selector(), seq!["id"@]) {
        let v = spec_sections_in_page(body).unwrap();
        assert(v == collect_sections(groups));
        lemma_collect_sections_from(groups);
        assert forall|j: int| 0 <= j < v.len() implies (#[trigger] v[j]).0 > 0 && exists|k: int|
                0 <= k < groups.len() && parse_u32(replace(attr_or_empty(#[trigger] groups[k].0, 0), "section-"@, ""@))
                == Some(v[j].0) && v[j].1 == (if groups[k].1.len() > 0 {
                    trim(groups[k].1[0].text)
                } else {
                    "Section "@ + decimal(v[j].0 as nat)
                }) by {
            let e = v[j];
            assert(section_from(groups, e));
            let k = choose|k: int| 0 <= k < groups.len() && section_number(attr_or_empty(groups[k].0, 0)) == e.0
                && e.0 > 0 && e.1 == section_name(groups[k].1, e.0);
            assert(parse_u32(replace(attr_or_empty(groups[k].0, 0), "section-"@, ""@)) == Some(e.0));
        }
    }
}

/// Some group gives the section `e`.
spec fn section_from(groups: Seq<(NodeView, Seq<NodeView>)>, e: (u32, Seq<char>)) -> bool {
    exists|k: int| 0 <= k < groups.len() && section_number(attr_or_empty(groups[k].0, 0)) == e.0
        && e.0 > 0 && e.1 == section_name(groups[k].1, e.0)
}

proof fn lemma_collect_sections_from(groups: Seq<(NodeView, Seq<NodeView>)>)
    ensures
        forall|j: int| 0 <= j < collect_sections(groups).len() ==> section_from(groups, #[trigger] collect_sections(groups)[j]),
    decreases groups.len(),
{
    if groups.len() > 0 {
        lemma_collect_sections_from(groups.skip(1));
        let n = section_number(attr_or_empty(groups[0].0, 0));
        let rest = collect_sections(groups.skip(1));
        let r = collect_sections(groups);
        assert forall|j: int| 0 <= j < r.len() implies section_from(groups, #[trigger] r[j]) by {
            let jj = if n > 0 { j - 1 } else { j };
            if n > 0 && j == 0 {
                assert(r[0] == (n, section_name(groups[0].1, n)));
            } else {
                assert(r[j] == rest[jj]);
                assert(section_from(groups.skip(1), rest[jj]));
                let k = choose|k: int| 0 <= k < groups.skip(1).len() && section_number(attr_or_empty(groups.skip(1)[k].0, 0)) == rest[jj].0
                    && rest[jj].0 > 0 && rest[jj].1 == section_name(groups.skip(1)[k].1, rest[jj].0);
                assert(groups.skip(1)[k] == groups[k + 1]);
            }
        }
    }
}

proof fn lemma_collect_sections_has(groups: Seq<(NodeView, Seq<NodeView>)>, k: int)
    requires
        0 <= k < groups.len(),
        section_number(attr_or_empty(groups[k].0, 0)) > 0,
    ensures
        exists|j: int| 0 <= j < collect_sections(groups).len() && #[trigger] collect_sections(groups)[j] == (
            section_number(attr_or_empty(groups[k].0, 0)), section_name(groups[k].1, section_number(attr_or_empty(groups[k].0, 0)))),
    decreases groups.len(),
{
    let n = section_number(attr_or_empty(groups[0].0, 0));
    let rest = collect_sections(groups.skip(1));
    let e = (section_number(attr_or_empty(groups[k].0, 0)), section_name(groups[k].1, section_number(attr_or_empty(groups[k].0, 0))));
    if k == 0 {
        assert(collect_sections(groups)[0] == e);
    } else {
        assert(groups.skip(1)[k - 1] == groups[k]);
        lemma_collect_sections_has(groups.skip(1), k - 1);
        let j = choose|j: int| 0 <= j < rest.len() && #[trigger] rest[j] == e;
        if n > 0 {
            assert(collect_sections(groups)[j + 1] == e);
        } else {
            assert(collect_sections(groups)[j] == e);
        }
    }
}

proof fn lemma_collect_sections_numbered(groups: Seq<(NodeView, Seq<NodeView>)>)
    ensures
        forall|i: int| 0 <= i < collect_sections(groups).len() ==> collect_sections(groups)[i].0 > 0,
    decreases groups.len(),
{
    if groups.len() > 0 {
        lemma_collect_sections_numbered(groups.skip(1));
        let n = section_number(attr_or_empty(groups[0].0, 0));
        let rest = collect_sections(groups.skip(1));
        if n > 0 {
            assert forall|i: int| 0 <= i < collect_sections(groups).len() implies collect_sections(groups)[i].0 > 0 by {
                if i > 0 {
                    assert(collect_sections(groups)[i] == rest[i - 1]);
                }
            }
        }
    }
}


// ---------------------------------------------------------------------------
// Activities
// ---------------------------------------------------------------------------

pub open spec fn activity_view(a: QuizAssignment) -> (u32, (Seq<char>, ActivityType)) {
    (a.id, (a.name@, a.activity_type))
}

pub open spec fn activities_view(v: Seq<QuizAssignment>) -> Seq<(u32, (Seq<char>, ActivityType))> {
    v.map_values(|a: QuizAssignment| activity_view(a))
}

/// The kind of activity an address leads to, if any: a quiz, an assignment
/// or a link, tested in that order.
pub open spec fn activity_kind(href: Seq<char>) -> Option<ActivityType> {
    if contains(href, "mod/quiz/view.php?id="@) {
        Some(ActivityType::Quiz)
    } else if contains(href, "mod/assign/view.php?id="@) {
        Some(ActivityType::Assignment)
    } else if contains(href, "mod/url/view.php?id="@) {
        Some(ActivityType::Url)
    } else {
        None
    }
}

/// What a link of a section page gives: the activity's number and kind, read
/// from its address, and the link's trimmed text as name.
pub open spec fn activity_link(n: NodeView) -> Option<(u32, (Seq<char>, ActivityType))> {
    let href = attr_or_empty(n, 0);
    match activity_kind(href) {
        Some(kind) => match spec_extract_id(href, "id="@) {
            Some(id) => Some((id, (trim(n.text), kind))),
            None => None,
        },
        None => None,
    }
}

/// The activities that the links give, in order, each number kept once (the
/// first link wins), added to `acc`.
pub open spec fn collect_activities(
    links: Seq<NodeView>,
    acc: Seq<(u32, (Seq<char>, ActivityType))>,
) -> Seq<(u32, (Seq<char>, ActivityType))>
    decreases links.len(),
{
    if links.len() == 0 {
        acc
    } else {
        let acc2 = match activity_link(links[0]) {
            Some(a) => if has_id(acc, a.0) { acc } else { acc.push(a) },
            None => acc,
        };
        collect_activities(links.skip(1), acc2)
    }
}

/// The activities listed on a section page; `None` where the link selector is
/// refused.
pub open spec fn spec_activities_in_page(body: Seq<char>) -> Option<Seq<(u32, (Seq<char>, ActivityType))>> {
    match spec_select(body, "a"@, seq!["href"@]) {
        Some(links) => Some(collect_activities(links, seq![])),
        None => None,
    }
}

fn activities_have_id(v: &Vec<QuizAssignment>, id: u32) -> (b: bool)
    ensures
        b == has_id(activities_view(v@), id),
{
    let mut i: usize = 0;
    while i < v.len()
        invariant
            i <= v@.len(),
            forall|k: int| 0 <= k < i ==> v@[k].id != id,
        decreases v.len() - i,
    {
        if v[i].id == id {
            assert(activities_view(v@)[i as int].0 == id);
            return true;
        }
        i = i + 1;
    }
    assert forall|k: int| 0 <= k < activities_view(v@).len() implies activities_view(v@)[k].0 != id by {
        assert(activities_view(v@)[k].0 == v@[k].id);
    }
    false
}

/// The kind of activity an address leads to (see [`activity_kind`]).
pub fn activity_kind_exec(href: &str) -> (r: Option<ActivityType>)
    ensures
        r == activity_kind(href@),
{
    if str_contains(href, "mod/quiz/view.php?id=") {
        Some(ActivityType::Quiz)
    } else if str_contains(href, "mod/assign/view.php?id=") {
        Some(ActivityType::Assignment)
    } else if str_contains(href, "mod/url/view.php?id=") {
        Some(ActivityType::Url)
    } else {
        None
    }
}

/// The quizzes, assignments and links that the links of a section page lead
/// to, each number once, in the order of the page; `None` where the link
/// selector is refused.
pub fn activities_in_page(body: &str) -> (r: Option<Vec<QuizAssignment>>)
    ensures
        match r {
            Some(v) => spec_activities_in_page(body@) == Some(activities_view(v@)),
            None => spec_activities_in_page(body@) is None,
        },
{
    let names = href_name();
    let links = match select(body, "a", names.as_slice()) {
        Some(l) => l,
        None => return None,
    };
    let ghost ls = nodes_view(links@);
    let mut out: Vec<QuizAssignment> = Vec::new();
    let mut i: usize = 0;
    assert(ls.skip(0) =~= ls);
    assert(activities_view(out@) =~= Seq::<(u32, (Seq<char>, ActivityType))>::empty());
    while i < links.len()
        invariant
            i <= links@.len(),
            ls == nodes_view(links@),
            collect_activities(ls, seq![]) == collect_activities(ls.skip(i as int), activities_view(out@)),
        decreases links.len() - i,
    {
        let link = &links[i];
        let href = attr_or_empty_exec(link, 0);
        let text = str_trim(link.text.as_str());
        proof {
            assert(ls.skip(i as int)[0] == ls[i as int]);
            assert(ls.skip(i as int).skip(1) =~= ls.skip(i + 1));
            assert(ls[i as int] == link@);
        }
        match activity_kind_exec(href.as_str()) {
            Some(kind) => match extract_id_from_href(href.as_str(), "id=") {
                Some(id) => {
                    if !activities_have_id(&out, id) {
                        let ghost before = activities_view(out@);
                        out.push(QuizAssignment { id, name: text, activity_type: kind });
                        assert(activities_view(out@) =~= before.push((id, (text@, kind))));
                    }
                },
                None => {},
            },
            None => {},
        }
        i = i + 1;
    }
    Some(out)
}

/// An activity listing never holds two activities with the same number.
pub proof fn lemma_activities_distinct(body: Seq<char>)
    ensures
        spec_activities_in_page(body) matches Some(v) ==> distinct_ids(v),
{
    match spec_select(body, "a"@, seq!["href"@]) {
        Some(links) => lemma_collect_activities_distinct(links, seq![]),
        None => {},
    }
}

proof fn lemma_collect_activities_distinct(links: Seq<NodeView>, acc: Seq<(u32, (Seq<char>, ActivityType))>)
    requires
        distinct_ids(acc),
    ensures
        distinct_ids(collect_activities(links, acc)),
    decreases links.len(),
{
    if links.len() > 0 {
        let acc2 = match activity_link(links[0]) {
            Some(a) => if has_id(acc, a.0) { acc } else { acc.push(a) },
            None => acc,
        };
        match activity_link(links[0]) {
            Some(a) => {
                if !has_id(acc, a.0) {
                    assert forall|i: int, j: int| 0 <= i < j < acc2.len() implies acc2[i].0 != acc2[j].0 by {
                        if j == acc.len() {
                            assert(acc2[i] == acc[i]);
                        }
                    }
                }
            },
            None => {},
        }
        lemma_collect_activities_distinct(links.skip(1), acc2);
    }
}

proof fn lemma_has_id_push<T>(acc: Seq<(u32, T)>, e: (u32, T), id: u32)
    ensures
        has_id(acc.push(e), id) <==> (has_id(acc, id) || e.0 == id),
{
    if has_id(acc, id) {
        let i = choose|i: int| 0 <= i < acc.len() && acc[i].0 == id;
        assert(acc.push(e)[i] == acc[i]);
    }
    if e.0 == id {
        assert(acc.push(e)[acc.len() as int] == e);
    }
    if has_id(acc.push(e), id) {
        let i = choose|i: int| 0 <= i < acc.push(e).len() && acc.push(e)[i].0 == id;
        if i < acc.len() {
            assert(acc[i] == acc.push(e)[i]);
        }
    }
}

/// The number a link of a course listing gives, if any.
pub open spec fn course_link_id(n: NodeView) -> Option<u32> {
    match course_link(n) {
        Some(c) => Some(c.0),
        None => None,
    }
}

/// The number an activity link gives, if any.
pub open spec fn activity_link_id(n: NodeView) -> Option<u32> {
    match activity_link(n) {
        Some(a) => Some(a.0),
        None => None,
    }
}

proof fn lemma_collect_courses_members(links: Seq<NodeView>, acc: Seq<(u32, Seq<char>)>, id: u32)
    ensures
        has_id(collect_courses(links, acc), id) <==> (has_id(acc, id) || exists|i: int|
            0 <= i < links.len() && #[trigger] course_link_id(links[i]) == Some(id)),
    decreases links.len(),
{
    if links.len() > 0 {
        let acc2 = match course_link(links[0]) {
            Some(c) => if has_id(acc, c.0) { acc } else { acc.push(c) },
            None => acc,
        };
        if let Some(c) = course_link(links[0]) {
            lemma_has_id_push(acc, c, id);
        }
        assert(has_id(acc2, id) <==> (has_id(acc, id) || course_link_id(links[0]) == Some(id)));
        lemma_collect_courses_members(links.skip(1), acc2, id);
        let e = exists|i: int| 0 <= i < links.len() && #[trigger] course_link_id(links[i]) == Some(id);
        let e1 = exists|i: int| 0 <= i < links.skip(1).len() && #[trigger] course_link_id(links.skip(1)[i]) == Some(id);
        if e {
            let i = choose|i: int| 0 <= i < links.len() && #[trigger] course_link_id(links[i]) == Some(id);
            if i > 0 {
                assert(links.skip(1)[i - 1] == links[i]);
                assert(course_link_id(links.skip(1)[i - 1]) == Some(id));
            }
        }
        if e1 {
            let i = choose|i: int| 0 <= i < links.skip(1).len() && #[trigger] course_link_id(links.skip(1)[i]) == Some(id);
            assert(links.skip(1)[i] == links[i + 1]);
            assert(course_link_id(links[i + 1]) == Some(id));
        }
        if course_link_id(links[0]) == Some(id) {
            assert(e);
        }
        assert(e <==> (course_link_id(links[0]) == Some(id) || e1));
    }
}

/// A course is listed exactly where some link of the page gives its
/// number.
pub proof fn lemma_courses_listed(body: Seq<char>, id: u32)
    ensures
        spec_courses_in_page(body) matches Some(v) ==> (has_id(v, id) <==> (spec_select(body, "a"@, seq!["href"@])
            matches Some(links) && exists|i: int| 0 <= i < links.len() && #[trigger] course_link_id(links[i]) == Some(id))),
{
    if let Some(links) = spec_select(body, "a"@, seq!["href"@]) {
        lemma_collect_courses_members(links, seq![], id);
    }
}

/// A course is listed exactly where some link of the page leads to a course
/// page: its address holds `course/view.php?id=`, its `id` parameter is the
/// course's number and its trimmed text is not empty.
pub proof fn lemma_course_from_course_page_link(body: Seq<char>, id: u32)
    ensures
        spec_courses_in_page(body) matches Some(v) ==> (has_id(v, id) <==> (spec_select(body, "a"@, seq!["href"@])
            matches Some(links) && exists|i: int| 0 <= i < links.len()
                && contains(attr_or_empty(#[trigger] links[i], 0), "course/view.php?id="@)
                && spec_extract_id(attr_or_empty(links[i], 0), "id="@) == Some(id)
                && trim(links[i].text).len() > 0)),
{
    if let Some(links) = spec_select(body, "a"@, seq!["href"@]) {
        lemma_collect_courses_members(links, seq![], id);
        let e = exists|i: int| 0 <= i < links.len() && #[trigger] course_link_id(links[i]) == Some(id);
        let f = exists|i: int| 0 <= i < links.len()
                && contains(attr_or_empty(#[trigger] links[i], 0), "course/view.php?id="@)
                && spec_extract_id(attr_or_empty(links[i], 0), "id="@) == Some(id)
                && trim(links[i].text).len() > 0;
        if e {
            let i = choose|i: int| 0 <= i < links.len() && #[trigger] course_link_id(links[i]) == Some(id);
            assert(contains(attr_or_empty(links[i], 0), "course/view.php?id="@));
        }
        if f {
            let i = choose|i: int| 0 <= i < links.len()
                && contains(attr_or_empty(#[trigger] links[i], 0), "course/view.php?id="@)
                && spec_extract_id(attr_or_empty(links[i], 0), "id="@) == Some(id)
                && trim(links[i].text).len() > 0;
            assert(course_link_id(links[i]) == Some(id));
        }
        assert(e == f);
    }
}

/// Each listed course is named by the trimmed, non-empty text of a link of
/// the page whose address holds `course/view.php?id=` with the course's
/// number as its `id` parameter.
pub proof fn lemma_course_named_by_its_link(body: Seq<char>)
    ensures
        spec_courses_in_page(body) matches Some(v) ==> spec_select(body, "a"@, seq!["href"@]) matches Some(links)
            && forall|j: int| 0 <= j < v.len() ==> (#[trigger] v[j]).1.len() > 0 && exists|i: int| 0 <= i < links.len()
                && contains(attr_or_empty(#[trigger] links[i], 0), "course/view.php?id="@)
                && spec_extract_id(attr_or_empty(links[i], 0), "id="@) == Some(v[j].0)
                && v[j].1 == trim(links[i].text),
{
    if let Some(links) = spec_select(body, "a"@, seq!["href"@]) {
        lemma_collect_courses_from_links(links, seq![]);
        lemma_courses_named(links, collect_courses(links, seq![]));
    }
}

proof fn lemma_courses_named(links: Seq<NodeView>, v: Seq<(u32, Seq<char>)>)
    requires
        forall|j: int| 0 <= j < v.len() ==> from_link_or_acc(links, seq![], #[trigger] v[j]),
    ensures
        forall|j: int| 0 <= j < v.len() ==> (#[trigger] v[j]).1.len() > 0 && exists|i: int| 0 <= i < links.len()
            && contains(attr_or_empty(#[trigger] links[i], 0), "course/view.php?id="@)
            && spec_extract_id(attr_or_empty(links[i], 0), "id="@) == Some(v[j].0)
            && v[j].1 == trim(links[i].text),
{
    assert forall|j: int| 0 <= j < v.len() implies (#[trigger] v[j]).1.len() > 0 && exists|i: int| 0 <= i < links.len()
            && contains(attr_or_empty(#[trigger] links[i], 0), "course/view.php?id="@)
            && spec_extract_id(attr_or_empty(links[i], 0), "id="@) == Some(v[j].0)
            && v[j].1 == trim(links[i].text) by {
        let e = v[j];
        assert(from_link_or_acc(links, seq![], e));
        assert(!Seq::<(u32, Seq<char>)>::empty().contains(e));
        let i = choose|i: int| 0 <= i < links.len() && course_link(links[i]) == Some(e);
        let href = attr_or_empty(links[i], 0);
        assert(contains(href, "course/view.php?id="@));
        assert(spec_extract_id(href, "id="@) == Some(e.0));
        assert(e.1 == trim(links[i].text) && e.1.len() > 0);
    }
}

/// `e` is in `acc` or some link gives it.
spec fn from_link_or_acc(links: Seq<NodeView>, acc: Seq<(u32, Seq<char>)>, e: (u32, Seq<char>)) -> bool {
    acc.contains(e) || exists|i: int| 0 <= i < links.len() && course_link(links[i]) == Some(e)
}

proof fn lemma_collect_courses_from_links(links: Seq<NodeView>, acc: Seq<(u32, Seq<char>)>)
    ensures
        forall|j: int| 0 <= j < collect_courses(links, acc).len() ==> from_link_or_acc(links, acc,
            #[trigger] collect_courses(links, acc)[j]),
    decreases links.len(),
{
    let r = collect_courses(links, acc);
    if links.len() > 0 {
        let acc2 = match course_link(links[0]) {
            Some(c) => if has_id(acc, c.0) { acc } else { acc.push(c) },
            None => acc,
        };
        lemma_collect_courses_from_links(links.skip(1), acc2);
        assert(r == collect_courses(links.skip(1), acc2));
        assert forall|j: int| 0 <= j < r.len() implies from_link_or_acc(links, acc, #[trigger] r[j]) by {
            assert(from_link_or_acc(links.skip(1), acc2, r[j]));
            if acc2.contains(r[j]) {
                let m = choose|m: int| 0 <= m < acc2.len() && acc2[m] == r[j];
                if m < acc.len() {
                    assert(acc[m] == acc2[m]);
                } else {
                    assert(course_link(links[0]) == Some(r[j]));
                }
            } else {
                let i = choose|i: int| 0 <= i < links.skip(1).len() && course_link(links.skip(1)[i]) == Some(r[j]);
                assert(links.skip(1)[i] == links[i + 1]);
            }
        }
    } else {
        assert forall|j: int| 0 <= j < r.len() implies from_link_or_acc(links, acc, #[trigger] r[j]) by {
            assert(acc[j] == r[j]);
        }
    }
}

proof fn lemma_collect_activities_members(links: Seq<NodeView>, acc: Seq<(u32, (Seq<char>, ActivityType))>, id: u32)
    ensures
        has_id(collect_activities(links, acc), id) <==> (has_id(acc, id) || exists|i: int|
            0 <= i < links.len() && #[trigger] activity_link_id(links[i]) == Some(id)),
    decreases links.len(),
{
    if links.len() > 0 {
        let acc2 = match activity_link(links[0]) {
            Some(c) => if has_id(acc, c.0) { acc } else { acc.push(c) },
            None => acc,
        };
        if let Some(c) = activity_link(links[0]) {
            lemma_has_id_push(acc, c, id);
        }
        assert(has_id(acc2, id) <==> (has_id(acc, id) || activity_link_id(links[0]) == Some(id)));
        lemma_collect_activities_members(links.skip(1), acc2, id);
        let e = exists|i: int| 0 <= i < links.len() && #[trigger] activity_link_id(links[i]) == Some(id);
        let e1 = exists|i: int| 0 <= i < links.skip(1).len() && #[trigger] activity_link_id(links.skip(1)[i]) == Some(id);
        if e {
            let i = choose|i: int| 0 <= i < links.len() && #[trigger] activity_link_id(links[i]) == Some(id);
            if i > 0 {
                assert(links.skip(1)[i - 1] == links[i]);
                assert(activity_link_id(links.skip(1)[i - 1]) == Some(id));
            }
        }
        if e1 {
            let i = choose|i: int| 0 <= i < links.skip(1).len() && #[trigger] activity_link_id(links.skip(1)[i]) == Some(id);
            assert(links.skip(1)[i] == links[i + 1]);
            assert(activity_link_id(links[i + 1]) == Some(id));
        }
        if activity_link_id(links[0]) == Some(id) {
            assert(e);
        }
        assert(e <==> (activity_link_id(links[0]) == Some(id) || e1));
    }
}

/// An activity is listed exactly where some link of the page leads to a
/// quiz, assignment or link activity of that number.
pub proof fn lemma_activities_listed(body: Seq<char>, id: u32)
    ensures
        spec_activities_in_page(body) matches Some(v) ==> (has_id(v, id) <==> (spec_select(body, "a"@, seq!["href"@])
            matches Some(links) && exists|i: int| 0 <= i < links.len() && #[trigger] activity_link_id(links[i]) == Some(id))),
{
    if let Some(links) = spec_select(body, "a"@, seq!["href"@]) {
        lemma_collect_activities_members(links, seq![], id);
    }
}

/// The query of a link starts after its first `?`, which follows `base`.
proof fn lemma_query_after(base: Seq<char>, tail: Seq<char>, prefix: Seq<char>)
    requires
        !base.contains('?'),
    ensures
        spec_extract_id(base + seq!['?'] + tail, prefix) == match first_with_prefix(split(tail, '&'), prefix) {
            None => None,
            Some(r) => parse_u32(r),
        },
{
    let href = base + seq!['?'] + tail;
    assert forall|k: int| 0 <= k < base.len() implies !matches_at(href, seq!['?'], k) by {
        if matches_at(href, seq!['?'], k) {
            assert(href.subrange(k, k + 1)[0] == href[k]);
            assert(href[k] == base[k]);
        }
    }
    assert(href.subrange(base.len() as int, base.len() + 1 as int) =~= seq!['?']);
    crate::text::lemma_find_unique(href, seq!['?'], base.len() as int);
    assert(href.skip(base.len() + 1 as int) =~= tail);
}

/// A query that starts with `<prefix><n>`, up to its end or an `&`, gives
/// `n` as its first parameter that starts with the prefix.
proof fn lemma_first_param(prefix: Seq<char>, n: u32, rest: Seq<char>)
    requires
        !prefix.contains('&'),
        rest.len() == 0 || rest[0] == '&',
    ensures
        first_with_prefix(split(prefix + decimal(n as nat) + rest, '&'), prefix) == Some(decimal(n as nat)),
        parse_u32(decimal(n as nat)) == Some(n),
{
    let param = prefix + decimal(n as nat);
    let query = param + rest;
    crate::text::lemma_decimal_digits(n as nat);
    if rest.len() == 0 {
        assert forall|j: int| 0 <= j < query.len() implies query[j] != '&' by {
            if j < prefix.len() {
                assert(query[j] == prefix[j]);
            } else {
                assert(query[j] == decimal(n as nat)[j - prefix.len()]);
            }
        }
        crate::text::lemma_split_none(query, '&');
        assert(split(query, '&')[0] == query);
        assert(query =~= param);
    } else {
        assert forall|j: int| 0 <= j < param.len() implies query[j] != '&' by {
            assert(query[j] == param[j]);
            if j < prefix.len() {
                assert(param[j] == prefix[j]);
            } else {
                assert(param[j] == decimal(n as nat)[j - prefix.len()]);
            }
        }
        crate::text::lemma_split_step(query, '&', param.len() as int);
        assert(query.take(param.len() as int) =~= param);
    }
    let ps = split(query, '&');
    assert(ps[0] == param);
    assert(param.subrange(0, prefix.len() as int) =~= prefix);
    assert(param.skip(prefix.len() as int) =~= decimal(n as nat));
    crate::text::lemma_parse_decimal(n);
}

/// A link to `…?<prefix><n>` gives back the number `n`, whatever comes before
/// the `?` and whatever parameters follow after an `&`.
#[verifier::spinoff_prover]
pub proof fn lemma_extract_id_roundtrip(base: Seq<char>, prefix: Seq<char>, n: u32, rest: Seq<char>)
    requires
        !base.contains('?'),
        !prefix.contains('&'),
        rest.len() == 0 || rest[0] == '&',
    ensures
        spec_extract_id(base + seq!['?'] + prefix + decimal(n as nat) + rest, prefix) == Some(n),
{
    lemma_query_after(base, prefix + decimal(n as nat) + rest, prefix);
    assert(base + seq!['?'] + prefix + decimal(n as nat) + rest =~= base + seq!['?'] + (prefix + decimal(
        n as nat,
    ) + rest));
    lemma_first_param(prefix, n, rest);
}

/// A link to `…?<other>&<prefix><n>` gives back the number `n` too, where
/// the parameter `other` before it does not start with the prefix.
#[verifier::spinoff_prover]
pub proof fn lemma_extract_id_after_other(
    base: Seq<char>,
    other: Seq<char>,
    prefix: Seq<char>,
    n: u32,
    rest: Seq<char>,
)
    requires
        !base.contains('?'),
        !other.contains('&'),
        !starts_with(other, prefix),
        !prefix.contains('&'),
        rest.len() == 0 || rest[0] == '&',
    ensures
        spec_extract_id(base + seq!['?'] + other + seq!['&'] + prefix + decimal(n as nat) + rest, prefix) == Some(n),
{
    let param = prefix + decimal(n as nat) + rest;
    let tail = other + seq!['&'] + param;
    lemma_query_after(base, tail, prefix);
    assert(base + seq!['?'] + other + seq!['&'] + prefix + decimal(n as nat) + rest =~= base + seq!['?'] + tail);
    assert forall|j: int| 0 <= j < other.len() implies tail[j] != '&' by {
        assert(tail[j] == other[j]);
    }
    assert(tail[other.len() as int] == '&');
    crate::text::lemma_split_step(tail, '&', other.len() as int);
    assert(tail.take(other.len() as int) =~= other);
    assert(tail.skip(other.len() + 1 as int) =~= param);
    let ps = split(tail, '&');
    assert(ps[0] == other);
    assert(ps.skip(1) =~= split(param, '&'));
    lemma_first_param(prefix, n, rest);
}


// ---------------------------------------------------------------------------
// Addresses
// ---------------------------------------------------------------------------

/// The address of a page of the Moodle site.
pub open spec fn spec_moodle_url(path: Seq<char>) -> Seq<char> {
    crate::types::MOODLE_BASE@ + path
}

/// See [`spec_moodle_url`].
pub fn moodle_url(path: &str) -> (r: String)
    ensures
        r@ == spec_moodle_url(path@),
{
    let mut v = chars_of(crate::types::MOODLE_BASE);
    let p = chars_of(path);
    append_chars(&mut v, p.as_slice());
    string_of(v.as_slice())
}

/// The address of a page of the site that takes a number: the path, then the
/// number in decimal, then `suffix`.
pub open spec fn spec_moodle_url_with(path: Seq<char>, n: u32, suffix: Seq<char>) -> Seq<char> {
    spec_moodle_url(path) + decimal(n as nat) + suffix
}

/// See [`spec_moodle_url_with`].
pub fn moodle_url_with(path: &str, n: u32, suffix: &str) -> (r: String)
    ensures
        r@ == spec_moodle_url_with(path@, n, suffix@),
{
    let base = moodle_url(path);
    let mut v = chars_of(base.as_str());
    let d = decimal_exec(n as u128);
    append_chars(&mut v, d.as_slice());
    let s = chars_of(suffix);
    append_chars(&mut v, s.as_slice());
    string_of(v.as_slice())
}

/// The pages where the enrolled courses are listed, in the order tried.
pub open spec fn spec_course_list_urls() -> Seq<Seq<char>> {
    seq![spec_moodle_url("/my/index.php"@), spec_moodle_url("/"@)]
}

/// See [`spec_course_list_urls`].
pub fn course_list_urls() -> (r: Vec<String>)
    ensures
        r@.map_values(|s: String| s@) == spec_course_list_urls(),
{
    let mut v: Vec<String> = Vec::new();
    v.push(moodle_url("/my/index.php"));
    v.push(moodle_url("/"));
    assert(v@.map_values(|s: String| s@) =~= spec_course_list_urls());
    v
}

/// The next page to read the enrolled courses from, after `tried` pages:
/// the pages of [`spec_course_list_urls`] in order, until one lists a
/// course (`found`). `None` once a page listed one or every page was read.
pub open spec fn spec_next_course_list(tried: nat, found: bool) -> Option<Seq<char>> {
    if found || tried >= spec_course_list_urls().len() {
        None
    } else {
        Some(spec_course_list_urls()[tried as int])
    }
}

/// See [`spec_next_course_list`].
pub fn next_course_list(tried: usize, found: bool) -> (r: Option<String>)
    ensures
        crate::pattern::opt_str_view(r) == spec_next_course_list(tried as nat, found),
{
    if found || tried >= 2 {
        None
    } else if tried == 0 {
        Some(moodle_url("/my/index.php"))
    } else {
        Some(moodle_url("/"))
    }
}

/// The page of a course.
pub fn course_url(course: u32) -> (r: String)
    ensures
        r@ == spec_moodle_url_with("/course/view.php?id="@, course, ""@),
{
    moodle_url_with("/course/view.php?id=", course, "")
}

/// The page of a section of a course.
pub open spec fn spec_section_url(course: u32, section: u32) -> Seq<char> {
    spec_moodle_url_with("/course/view.php?id="@, course, "&section="@) + decimal(section as nat)
}

/// See [`spec_section_url`].
pub fn section_url(course: u32, section: u32) -> (r: String)
    ensures
        r@ == spec_section_url(course, section),
{
    let a = moodle_url_with("/course/view.php?id=", course, "&section=");
    let mut v = chars_of(a.as_str());
    let d = decimal_exec(section as u128);
    append_chars(&mut v, d.as_slice());
    string_of(v.as_slice())
}

} // verus!
