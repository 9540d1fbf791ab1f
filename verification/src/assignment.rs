//! Submitting a file to an assignment: what is read from each page, and
//! what each reply means.
use vstd::prelude::*;
use crate::api::{attr_or_empty, attr_or_empty_exec};
use crate::dom::{
    groups_view, names_view, nodes_view, select, select_nested, spec_select, spec_select_nested,
    NodeView,
};
use crate::pattern::{
    all_groups1, all_groups1_exec, first_required_group, first_required_group_exec, opt_str_view,
    optional_group, optional_group_exec, regex_captures, spec_regex_captures, strings_view,
    strs_view, group_at, group_at_exec,
};
use crate::text::{
    advance, advance_exec, append_chars, chars_of, contains, digit_prefix, digit_prefix_exec, find,
    find_exec, join, join_exec, lemma_advance, lemma_find, matches_at, replace, split, split_exec,
    str_contains, str_eq, str_replace, str_trim, string_of, trim, trim_char, trim_char_exec,
    trim_exec, utf8_len, utf8_len_prefix,
};

verus! {

// ---------------------------------------------------------------------------
// Reading the assignment pages
// ---------------------------------------------------------------------------

/// The trimmed text of the first node, if any.
pub open spec fn first_text(nodes: Seq<NodeView>) -> Option<Seq<char>> {
    if nodes.len() > 0 {
        Some(trim(nodes[0].text))
    } else {
        None
    }
}

/// The submission status shown on the assignment page: the trimmed text of
/// the first `.submithelp` element, or `Unknown`.
pub open spec fn spec_submission_status(view_body: Seq<char>) -> Option<Seq<char>> {
    match spec_select(view_body, ".submithelp"@, seq![]) {
        None => None,
        Some(ns) => match first_text(ns) {
            Some(t) => Some(t),
            None => Some("Unknown"@),
        },
    }
}

/// The submission status shown on the assignment page; `None` where the
/// selector is refused.
pub fn submission_status(view_body: &str) -> (r: Option<String>)
    ensures
        opt_str_view(r) == spec_submission_status(view_body@),
{
    let names: Vec<&'static str> = Vec::new();
    assert(names_view(names@) =~= Seq::<Seq<char>>::empty());
    match select(view_body, ".submithelp", names.as_slice()) {
        None => None,
        Some(ns) => {
            if ns.len() > 0 {
                Some(str_trim(ns[0].text.as_str()))
            } else {
                Some("Unknown".to_owned())
            }
        },
    }
}

pub open spec fn params_view(v: Seq<(String, String)>) -> Seq<(Seq<char>, Seq<char>)> {
    v.map_values(|p: (String, String)| (p.0@, p.1@))
}

/// The name and value of each hidden input (empty where absent).
pub open spec fn input_pairs(inputs: Seq<NodeView>) -> Seq<(Seq<char>, Seq<char>)> {
    inputs.map_values(|n: NodeView| (attr_or_empty(n, 0), attr_or_empty(n, 1)))
}

/// The hidden inputs of the first form of the edit page, as (name, value)
/// pairs; `Some(None)` where the page has no form.
pub open spec fn spec_submission_form(edit_body: Seq<char>) -> Option<Option<Seq<(Seq<char>, Seq<char>)>>> {
    match spec_select_nested(edit_body, "form"@, "input[type=hidden]"@, seq!["name"@, "value"@]) {
        None => None,
        Some(forms) => if forms.len() > 0 {
            Some(Some(input_pairs(forms[0].1)))
        } else {
            Some(None)
        },
    }
}

/// The names asked of an input.
pub fn name_value_names() -> (r: Vec<&'static str>)
    ensures
        names_view(r@) == seq!["name"@, "value"@],
{
    let mut v: Vec<&'static str> = Vec::new();
    v.push("name");
    v.push("value");
    assert(names_view(v@) =~= seq!["name"@, "value"@]);
    v
}

/// The (name, value) pairs of the nodes.
pub fn node_pairs(inputs: &Vec<crate::dom::Node>) -> (r: Vec<(String, String)>)
    ensures
        params_view(r@) == input_pairs(nodes_view(inputs@)),
{
    let mut out: Vec<(String, String)> = Vec::new();
    let mut i: usize = 0;
    while i < inputs.len()
        invariant
            i <= inputs@.len(),
            params_view(out@) == input_pairs(nodes_view(inputs@)).take(i as int),
        decreases inputs.len() - i,
    {
        let n = attr_or_empty_exec(&inputs[i], 0);
        let v = attr_or_empty_exec(&inputs[i], 1);
        let ghost before = params_view(out@);
        out.push((n, v));
        proof {
            assert(params_view(out@) =~= before.push((n@, v@)));
            assert(input_pairs(nodes_view(inputs@)).take(i + 1) =~= input_pairs(nodes_view(inputs@)).take(
                i as int,
            ).push(input_pairs(nodes_view(inputs@))[i as int]));
        }
        i = i + 1;
    }
    assert(input_pairs(nodes_view(inputs@)).take(inputs@.len() as int) =~= input_pairs(nodes_view(inputs@)));
    out
}

/// The hidden inputs of the submission form of the edit page; `Some(None)`
/// where the page has no form, `None` where a selector is refused.
pub fn submission_form(edit_body: &str) -> (r: Option<Option<Vec<(String, String)>>>)
    ensures
        match r {
            Some(Some(v)) => spec_submission_form(edit_body@) == Some(Some(params_view(v@))),
            Some(None) => spec_submission_form(edit_body@) == Some(None::<Seq<(Seq<char>, Seq<char>)>>),
            None => spec_submission_form(edit_body@) is None,
        },
{
    let names = name_value_names();
    match select_nested(edit_body, "form", "input[type=hidden]", names.as_slice()) {
        None => None,
        Some(forms) => {
            if forms.len() > 0 {
                assert(groups_view(forms@)[0].1 == nodes_view(forms@[0].1@));
                Some(Some(node_pairs(&forms[0].1)))
            } else {
                Some(None)
            }
        },
    }
}

/// The value of the first pair named `name`.
pub open spec fn lookup(params: Seq<(Seq<char>, Seq<char>)>, name: Seq<char>) -> Option<Seq<char>>
    decreases params.len(),
{
    if params.len() == 0 {
        None
    } else if params[0].0 == name {
        Some(params[0].1)
    } else {
        lookup(params.skip(1), name)
    }
}

/// The value of the first pair named `name`, or `default`.
pub open spec fn lookup_or(params: Seq<(Seq<char>, Seq<char>)>, name: Seq<char>, default: Seq<char>) -> Seq<char> {
    match lookup(params, name) {
        Some(v) => v,
        None => default,
    }
}

/// The value of the first parameter named `name`, or `default`.
pub fn param_or(params: &Vec<(String, String)>, name: &str, default: &str) -> (r: String)
    ensures
        r@ == lookup_or(params_view(params@), name@, default@),
{
    let ghost ps = params_view(params@);
    let mut i: usize = 0;
    assert(ps.skip(0) =~= ps);
    while i < params.len()
        invariant
            i <= params@.len(),
            ps == params_view(params@),
            lookup(ps, name@) == lookup(ps.skip(i as int), name@),
        decreases params.len() - i,
    {
        proof {
            assert(ps.skip(i as int)[0] == ps[i as int]);
            assert(ps.skip(i as int).skip(1) =~= ps.skip(i + 1));
        }
        if str_eq(params[i].0.as_str(), name) {
            return params[i].1.clone();
        }
        i = i + 1;
    }
    default.to_owned()
}

/// The name put to the upload when the pages show none.
pub open spec fn default_author() -> Seq<char> {
    "\u{5c71}\u{7530} \u{592a}\u{90ce}"@
}

/// The author of an upload: the trimmed text of the first user name on the
/// assignment page, else on the edit page, else of the first profile link of
/// either page; the default name where none is found or the text is empty.
pub open spec fn spec_author_name(view_body: Seq<char>, edit_body: Seq<char>) -> Option<Seq<char>> {
    match (
        spec_select(view_body, ".usertext"@, seq![]),
        spec_select(edit_body, ".usertext"@, seq![]),
        spec_select(view_body, "a[href*='user/view.php']"@, seq![]),
        spec_select(edit_body, "a[href*='user/view.php']"@, seq![]),
    ) {
        (Some(a), Some(b), Some(c), Some(d)) => {
            let found = if a.len() > 0 {
                first_text(a)
            } else if b.len() > 0 {
                first_text(b)
            } else if c.len() > 0 {
                first_text(c)
            } else {
                first_text(d)
            };
            match found {
                Some(t) => if t.len() > 0 { Some(t) } else { Some(default_author()) },
                None => Some(default_author()),
            }
        },
        _ => None,
    }
}

/// The author name put to an upload; `None` where a selector is refused.
pub fn author_name(view_body: &str, edit_body: &str) -> (r: Option<String>)
    ensures
        opt_str_view(r) == spec_author_name(view_body@, edit_body@),
{
    let names: Vec<&'static str> = Vec::new();
    assert(names_view(names@) =~= Seq::<Seq<char>>::empty());
    let a = select(view_body, ".usertext", names.as_slice());
    let b = select(edit_body, ".usertext", names.as_slice());
    let c = select(view_body, "a[href*='user/view.php']", names.as_slice());
    let d = select(edit_body, "a[href*='user/view.php']", names.as_slice());
    match (a, b, c, d) {
        (Some(a), Some(b), Some(c), Some(d)) => {
            let found = if a.len() > 0 {
                Some(str_trim(a[0].text.as_str()))
            } else if b.len() > 0 {
                Some(str_trim(b[0].text.as_str()))
            } else if c.len() > 0 {
                Some(str_trim(c[0].text.as_str()))
            } else if d.len() > 0 {
                Some(str_trim(d[0].text.as_str()))
            } else {
                None
            };
            match found {
                Some(t) => {
                    if !t.as_str().is_empty() {
                        Some(t)
                    } else {
                        Some("\u{5c71}\u{7530} \u{592a}\u{90ce}".to_owned())
                    }
                },
                None => Some("\u{5c71}\u{7530} \u{592a}\u{90ce}".to_owned()),
            }
        },
        _ => None,
    }
}

// ---------------------------------------------------------------------------
// Accepted file types
// ---------------------------------------------------------------------------

/// The pattern of the list of accepted types in the page's settings.
pub open spec fn accepted_types_pattern() -> Seq<char> {
    "\"accepted_types\":\\s*\\[([^\\]]+)\\]"@
}

/// One entry of the list: trimmed, quotes removed, trimmed again.
pub open spec fn clean_type(t: Seq<char>) -> Seq<char> {
    trim(trim_char(trim(t), '"'))
}

/// The entries that are not empty once cleaned, in order.
pub open spec fn clean_types(parts: Seq<Seq<char>>) -> Seq<Seq<char>>
    decreases parts.len(),
{
    if parts.len() == 0 {
        seq![]
    } else if clean_type(parts[0]).len() > 0 {
        seq![clean_type(parts[0])] + clean_types(parts.skip(1))
    } else {
        clean_types(parts.skip(1))
    }
}

/// The accepted types written in a list: its entries cleaned and joined
/// with `sep`, or `.pdf` where none is left.
pub open spec fn types_from_list(raw: Seq<char>, sep: Seq<char>) -> Seq<char> {
    let types = clean_types(split(raw, ','));
    if types.len() == 0 {
        ".pdf"@
    } else {
        join(types, sep)
    }
}

/// The file types the edit page accepts, joined with `sep`; `.pdf` where the
/// page lists none. `None` where the pattern is refused.
pub open spec fn spec_accepted_types(edit_body: Seq<char>, sep: Seq<char>) -> Option<Seq<char>> {
    match spec_regex_captures(accepted_types_pattern(), edit_body) {
        None => None,
        Some(None) => Some(".pdf"@),
        Some(Some(gs)) => match group_at(gs, 1) {
            Some(raw) => Some(types_from_list(raw, sep)),
            None => Some(".pdf"@),
        },
    }
}

fn clean_types_exec(parts: &Vec<Vec<char>>) -> (r: Vec<Vec<char>>)
    ensures
        r@.map_values(|p: Vec<char>| p@) == clean_types(parts@.map_values(|p: Vec<char>| p@)),
{
    let ghost ps = parts@.map_values(|p: Vec<char>| p@);
    let mut out: Vec<Vec<char>> = Vec::new();
    let mut i: usize = parts.len();
    assert(ps.skip(i as int) =~= Seq::<Seq<char>>::empty());
    assert(out@.map_values(|p: Vec<char>| p@) =~= Seq::<Seq<char>>::empty());
    while i > 0
        invariant
            i <= parts@.len(),
            ps == parts@.map_values(|p: Vec<char>| p@),
            out@.map_values(|p: Vec<char>| p@).reverse() == clean_types(ps.skip(i as int)),
        decreases i,
    {
        let t1 = trim_exec(parts[i - 1].as_slice());
        let t2 = trim_char_exec(t1.as_slice(), '"');
        let t3 = trim_exec(t2.as_slice());
        proof {
            let t = ps.skip(i - 1);
            assert(t[0] == ps[i - 1]);
            assert(t.skip(1) =~= ps.skip(i as int));
        }
        if t3.len() > 0 {
            let ghost before = out@.map_values(|p: Vec<char>| p@);
            out.push(t3);
            proof {
                assert(out@.map_values(|p: Vec<char>| p@) =~= before.push(t3@));
                assert(before.push(t3@).reverse() =~= seq![t3@] + before.reverse());
            }
        }
        i = i - 1;
    }
    let ghost fwd = out@.map_values(|p: Vec<char>| p@);
    let mut res: Vec<Vec<char>> = Vec::new();
    while out.len() > 0
        invariant
            res@.map_values(|p: Vec<char>| p@) + out@.map_values(|p: Vec<char>| p@).reverse()
                == fwd.reverse(),
        decreases out.len(),
    {
        let ghost bo = out@.map_values(|p: Vec<char>| p@);
        let ghost br = res@.map_values(|p: Vec<char>| p@);
        let last = out.pop().unwrap();
        res.push(last);
        proof {
            assert(bo =~= out@.map_values(|p: Vec<char>| p@).push(last@));
            assert(res@.map_values(|p: Vec<char>| p@) =~= br.push(last@));
            assert(bo.reverse() =~= seq![last@] + out@.map_values(|p: Vec<char>| p@).reverse());
            assert(res@.map_values(|p: Vec<char>| p@) + out@.map_values(|p: Vec<char>| p@).reverse()
                =~= br + bo.reverse());
        }
    }
    proof {
        assert(out@.map_values(|p: Vec<char>| p@).reverse() =~= Seq::<Seq<char>>::empty());
        assert(res@.map_values(|p: Vec<char>| p@) =~= fwd.reverse());
        assert(ps.skip(0) =~= ps);
        assert(fwd.reverse().reverse() =~= fwd);
    }
    res
}

/// See [`types_from_list`].
pub fn types_from_list_exec(raw: &str, sep: &str) -> (r: String)
    ensures
        r@ == types_from_list(raw@, sep@),
{
    let rc = chars_of(raw);
    let parts = split_exec(rc.as_slice(), ',');
    assert(parts@.map_values(|p: Vec<char>| p@) =~= split(raw@, ','));
    let types = clean_types_exec(&parts);
    if types.len() == 0 {
        ".pdf".to_owned()
    } else {
        let sc = chars_of(sep);
        let j = join_exec(&types, sc.as_slice());
        string_of(j.as_slice())
    }
}

/// The file types the edit page accepts, joined with `sep`; `.pdf` where the
/// page lists none; `None` where the pattern is refused.
pub fn accepted_types(edit_body: &str, sep: &str) -> (r: Option<String>)
    ensures
        opt_str_view(r) == spec_accepted_types(edit_body@, sep@),
{
    match regex_captures("\"accepted_types\":\\s*\\[([^\\]]+)\\]", edit_body) {
        None => None,
        Some(None) => Some(".pdf".to_owned()),
        Some(Some(gs)) => match group_at_exec(&gs, 1) {
            Some(raw) => Some(types_from_list_exec(raw.as_str(), sep)),
            None => Some(".pdf".to_owned()),
        },
    }
}


// ---------------------------------------------------------------------------
// Removing the previous submission
// ---------------------------------------------------------------------------

/// The pattern of a session key in a form.
pub open spec fn sesskey_pattern() -> Seq<char> {
    "name=\"sesskey\" value=\"([^\"]+)\""@
}

/// The session key of the removal confirmation page, or `fallback` where it
/// shows none; `None` where the pattern is refused or its match lacks the key.
pub open spec fn spec_confirm_sesskey(confirm_page: Seq<char>, fallback: Seq<char>) -> Option<Seq<char>> {
    first_required_group(seq![sesskey_pattern()], confirm_page, fallback)
}

/// See [`spec_confirm_sesskey`].
pub fn confirm_sesskey(confirm_page: &str, fallback: &str) -> (r: Option<String>)
    ensures
        opt_str_view(r) == spec_confirm_sesskey(confirm_page@, fallback@),
{
    let mut ps: Vec<&'static str> = Vec::new();
    ps.push("name=\"sesskey\" value=\"([^\"]+)\"");
    assert(strs_view(ps@) =~= seq![sesskey_pattern()]);
    first_required_group_exec(ps.as_slice(), confirm_page, fallback)
}

/// How many times the draft area is listed before the upload goes ahead.
pub const MAX_DRAFT_ATTEMPTS: u32 = 5;

/// What a listing of the draft area asks for next.
pub enum DraftAction {
    /// The area is empty.
    Cleared,
    /// The area still holds files; the file count the server reports, and the
    /// names of the files to delete.
    Delete { count: String, files: Vec<String> },
}

/// The pattern of the file count in a listing.
pub open spec fn filecount_pattern() -> Seq<char> {
    "filecount\":(\\d+)"@
}

/// The pattern of a file name in a listing.
pub open spec fn filename_pattern() -> Seq<char> {
    "\"filename\":\"([^\"]+)\""@
}

/// The file count a listing of the draft area reports (`0` where it reports
/// none); `None` where the pattern is refused or its match lacks the count.
pub open spec fn spec_draft_filecount(listing: Seq<char>) -> Option<Seq<char>> {
    first_required_group(seq![filecount_pattern()], listing, "0"@)
}

/// What a listing of the draft area means: cleared where the count is `0`,
/// else the files named in it are to be deleted. `None` where a pattern is
/// refused or a match lacks its group.
pub open spec fn spec_draft_action(listing: Seq<char>) -> Option<(bool, Seq<char>, Seq<Seq<char>>)> {
    match (spec_draft_filecount(listing), all_groups1(filename_pattern(), listing)) {
        (Some(count), Some(files)) => if count == "0"@ {
            Some((true, count, seq![]))
        } else {
            Some((false, count, files))
        },
        (Some(count), None) => if count == "0"@ { Some((true, count, seq![])) } else { None },
        _ => None,
    }
}

pub open spec fn draft_action_view(a: DraftAction) -> (bool, Seq<char>, Seq<Seq<char>>) {
    match a {
        DraftAction::Cleared => (true, "0"@, seq![]),
        DraftAction::Delete { count, files } => (false, count@, strings_view(files@)),
    }
}

/// Reads a listing of the draft area (see [`spec_draft_action`]).
pub fn draft_action(listing: &str) -> (r: Option<DraftAction>)
    ensures
        match r {
            Some(a) => spec_draft_action(listing@) == Some(draft_action_view(a)),
            None => spec_draft_action(listing@) is None,
        },
{
    let mut ps: Vec<&'static str> = Vec::new();
    ps.push("filecount\":(\\d+)");
    assert(strs_view(ps@) =~= seq![filecount_pattern()]);
    let count = match first_required_group_exec(ps.as_slice(), listing, "0") {
        Some(c) => c,
        None => return None,
    };
    proof {
        reveal_strlit("0");
    }
    if str_eq(count.as_str(), "0") {
        return Some(DraftAction::Cleared);
    }
    match all_groups1_exec("\"filename\":\"([^\"]+)\"", listing) {
        Some(files) => Some(DraftAction::Delete { count, files }),
        None => None,
    }
}

/// The selection a deletion request names: the file at the root of the
/// draft area.
pub open spec fn spec_selected_json(file_name: Seq<char>) -> Seq<char> {
    "[{\"filepath\":\"/\",\"filename\":\""@ + file_name + "\"}]"@
}

/// See [`spec_selected_json`].
pub fn selected_json(file_name: &str) -> (r: String)
    ensures
        r@ == spec_selected_json(file_name@),
{
    let mut v = chars_of("[{\"filepath\":\"/\",\"filename\":\"");
    let f = chars_of(file_name);
    append_chars(&mut v, f.as_slice());
    let t = chars_of("\"}]");
    append_chars(&mut v, t.as_slice());
    string_of(v.as_slice())
}

// ---------------------------------------------------------------------------
// Upload settings read from the edit page
// ---------------------------------------------------------------------------

/// The text that follows the first `key` in `t`, up to the first character
/// of `ends` and at most 100 bytes on, as `str` slicing by bytes gives it;
/// empty where `key` does not occur. `None` where the slice would end past
/// the text or inside a character.
pub open spec fn spec_extract_str(t: Seq<char>, key: Seq<char>, ends: Seq<char>) -> Option<Seq<char>> {
    match find(t, key) {
        None => Some(seq![]),
        Some(p) => {
            let rest = t.skip(p + key.len());
            let len = match first_of(rest, ends) {
                Some(q) => if utf8_len(rest.take(q)) < 100 { utf8_len(rest.take(q)) as int } else { 100 },
                None => 100,
            };
            match advance(rest, 0, len) {
                Some(Some(j)) => Some(rest.take(j)),
                _ => None,
            }
        },
    }
}

/// The first position of `s` that holds one of the characters `cs`.
pub open spec fn first_of(s: Seq<char>, cs: Seq<char>) -> Option<int>
    decreases s.len(),
{
    if s.len() == 0 {
        None
    } else if cs.contains(s[0]) {
        Some(0)
    } else {
        match first_of(s.skip(1), cs) {
            Some(i) => Some(i + 1),
            None => None,
        }
    }
}

proof fn lemma_first_of(s: Seq<char>, cs: Seq<char>)
    ensures
        first_of(s, cs) matches Some(i) ==> 0 <= i < s.len() && cs.contains(s[i]),
        first_of(s, cs) matches Some(i) ==> forall|k: int| 0 <= k < i ==> !cs.contains(s[k]),
        first_of(s, cs) is None ==> forall|k: int| 0 <= k < s.len() ==> !cs.contains(s[k]),
    decreases s.len(),
{
    if s.len() > 0 {
        lemma_first_of(s.skip(1), cs);
        if !cs.contains(s[0]) {
            assert forall|k: int| 1 <= k < s.len() implies s[k] == s.skip(1)[k - 1] by {}
        }
    }
}

fn char_in(c: char, cs: &[char]) -> (b: bool)
    ensures
        b == cs@.contains(c),
{
    let mut i: usize = 0;
    while i < cs.len()
        invariant
            i <= cs@.len(),
            forall|k: int| 0 <= k < i ==> cs@[k] != c,
        decreases cs.len() - i,
    {
        if cs[i] == c {
            return true;
        }
        i = i + 1;
    }
    false
}

fn first_of_exec(s: &[char], cs: &[char]) -> (r: Option<usize>)
    ensures
        match r {
            Some(i) => first_of(s@, cs@) == Some(i as int),
            None => first_of(s@, cs@) is None,
        },
{
    let mut i: usize = 0;
    while i < s.len()
        invariant
            i <= s@.len(),
            forall|k: int| 0 <= k < i ==> !cs@.contains(s@[k]),
        decreases s.len() - i,
    {
        if char_in(s[i], cs) {
            proof {
                lemma_first_of(s@, cs@);
            }
            return Some(i);
        }
        i = i + 1;
    }
    proof {
        lemma_first_of(s@, cs@);
    }
    None
}

/// See [`spec_extract_str`].
pub fn extract_str(text: &str, key: &str, ends: &[char]) -> (r: Option<String>)
    ensures
        opt_str_view(r) == spec_extract_str(text@, key@, ends@),
{
    let t = chars_of(text);
    let k = chars_of(key);
    let p = match find_exec(t.as_slice(), k.as_slice()) {
        None => return Some(String::new()),
        Some(p) => p,
    };
    proof {
        lemma_find(t@, k@);
        assert(matches_at(t@, k@, p as int));
    }
    let tl = t.len();
    assert(p + k@.len() <= tl);
    let start = p + k.len();
    let rest = crate::text::skip_chars(t.as_slice(), start);
    let len: u128 = match first_of_exec(rest.as_slice(), ends) {
        Some(q) => {
            proof {
                lemma_first_of(rest@, ends@);
            }
            let b = utf8_len_prefix(rest.as_slice(), q);
            if b < 100 { b } else { 100 }
        },
        None => 100,
    };
    match advance_exec(rest.as_slice(), 0, len) {
        Some(Some(j)) => {
            proof {
                lemma_advance(rest@, 0, len as int);
            }
            let piece = crate::text::subrange_chars(rest.as_slice(), 0, j);
            assert(piece@ =~= rest@.take(j as int));
            Some(string_of(piece.as_slice()))
        },
        _ => None,
    }
}

/// The ASCII digits that follow the first `key` in `t`; empty where `key`
/// does not occur.
pub open spec fn spec_extract_number(t: Seq<char>, key: Seq<char>) -> Seq<char> {
    match find(t, key) {
        None => seq![],
        Some(p) => digit_prefix(t.skip(p + key.len())),
    }
}

/// See [`spec_extract_number`].
pub fn extract_number(text: &str, key: &str) -> (r: String)
    ensures
        r@ == spec_extract_number(text@, key@),
{
    let t = chars_of(text);
    let k = chars_of(key);
    match find_exec(t.as_slice(), k.as_slice()) {
        None => String::new(),
        Some(p) => {
            proof {
                lemma_find(t@, k@);
                assert(matches_at(t@, k@, p as int));
            }
            let tl = t.len();
            assert(p + k@.len() <= tl);
            let rest = crate::text::skip_chars(t.as_slice(), p + k.len());
            let d = digit_prefix_exec(rest.as_slice());
            string_of(d.as_slice())
        },
    }
}

/// The settings the upload request carries, read from the edit page.
pub struct UploadSettings {
    pub client_id: String,
    pub ctx_id: String,
    pub course: String,
    pub maxbytes: String,
    pub areamaxbytes: String,
    pub repo_id: String,
}

pub open spec fn maxbytes_patterns() -> Seq<Seq<char>> {
    seq![
        "\"maxbytes\":\\s*\"(\\d+)\""@,
        "\"maxbytes\":\\s*(\\d+)"@,
        "maxbytes[\"\\s:=]+(\\d+)"@,
    ]
}

pub open spec fn areamaxbytes_patterns() -> Seq<Seq<char>> {
    seq!["\"areamaxbytes\":\\s*\"(-?\\d+)\""@, "\"areamaxbytes\":\\s*(-?\\d+)"@]
}

pub open spec fn repo_id_patterns() -> Seq<Seq<char>> {
    seq![
        "\"repo_id\":\\s*\"(\\d+)\""@,
        "\"repo_id\":\\s*(\\d+)"@,
        "data-repositoryid=\"(\\d+)\""@,
    ]
}

/// The characters that end a file manager's client id.
pub open spec fn client_id_ends() -> Seq<char> {
    seq![' ', '\n', '"', '\'', '>']
}

/// The upload settings of the edit page: the file manager's client id, the
/// context and course numbers, the size limits (5242880 and -1 where the page
/// shows none) and the repository (4 where the page shows none). `None`
/// where a pattern is refused or a slice would not be possible.
pub open spec fn spec_upload_settings(edit_page: Seq<char>) -> Option<(Seq<char>, Seq<char>, Seq<char>, Seq<char>, Seq<char>, Seq<char>)> {
    match (
        spec_extract_str(edit_page, "filemanager-"@, client_id_ends()),
        first_required_group(maxbytes_patterns(), edit_page, "5242880"@),
        first_required_group(areamaxbytes_patterns(), edit_page, "-1"@),
        first_required_group(repo_id_patterns(), edit_page, "4"@),
    ) {
        (Some(cid), Some(mb), Some(amb), Some(repo)) => Some(
            (
                trim(cid),
                spec_extract_number(edit_page, "ctx_id="@),
                spec_extract_number(edit_page, "course="@),
                mb,
                amb,
                repo,
            ),
        ),
        _ => None,
    }
}

pub open spec fn upload_settings_view(u: UploadSettings) -> (Seq<char>, Seq<char>, Seq<char>, Seq<char>, Seq<char>, Seq<char>) {
    (u.client_id@, u.ctx_id@, u.course@, u.maxbytes@, u.areamaxbytes@, u.repo_id@)
}

/// See [`spec_upload_settings`].
pub fn upload_settings(edit_page: &str) -> (r: Option<UploadSettings>)
    ensures
        match r {
            Some(u) => spec_upload_settings(edit_page@) == Some(upload_settings_view(u)),
            None => spec_upload_settings(edit_page@) is None,
        },
{
    let mut ends: Vec<char> = Vec::new();
    ends.push(' ');
    ends.push('\n');
    ends.push('"');
    ends.push('\'');
    ends.push('>');
    assert(ends@ =~= client_id_ends());
    let cid = extract_str(edit_page, "filemanager-", ends.as_slice());
    let mut mp: Vec<&'static str> = Vec::new();
    mp.push("\"maxbytes\":\\s*\"(\\d+)\"");
    mp.push("\"maxbytes\":\\s*(\\d+)");
    mp.push("maxbytes[\"\\s:=]+(\\d+)");
    assert(strs_view(mp@) =~= maxbytes_patterns());
    let mb = first_required_group_exec(mp.as_slice(), edit_page, "5242880");
    let mut ap: Vec<&'static str> = Vec::new();
    ap.push("\"areamaxbytes\":\\s*\"(-?\\d+)\"");
    ap.push("\"areamaxbytes\":\\s*(-?\\d+)");
    assert(strs_view(ap@) =~= areamaxbytes_patterns());
    let amb = first_required_group_exec(ap.as_slice(), edit_page, "-1");
    let mut rp: Vec<&'static str> = Vec::new();
    rp.push("\"repo_id\":\\s*\"(\\d+)\"");
    rp.push("\"repo_id\":\\s*(\\d+)");
    rp.push("data-repositoryid=\"(\\d+)\"");
    assert(strs_view(rp@) =~= repo_id_patterns());
    let repo = first_required_group_exec(rp.as_slice(), edit_page, "4");
    match (cid, mb, amb, repo) {
        (Some(cid), Some(mb), Some(amb), Some(repo)) => Some(UploadSettings {
            client_id: str_trim(cid.as_str()),
            ctx_id: extract_number(edit_page, "ctx_id="),
            course: extract_number(edit_page, "course="),
            maxbytes: mb,
            areamaxbytes: amb,
            repo_id: repo,
        }),
        _ => None,
    }
}


// ---------------------------------------------------------------------------
// The upload request
// ---------------------------------------------------------------------------

/// The address the file is uploaded to: the repository's upload action with
/// the session key, the settings and the draft area, saved at the root.
pub open spec fn spec_upload_url(
    sesskey: Seq<char>,
    draft_id: Seq<char>,
    u: (Seq<char>, Seq<char>, Seq<char>, Seq<char>, Seq<char>, Seq<char>),
) -> Seq<char> {
    crate::types::MOODLE_BASE@ + "/repository/repository_ajax.php?action=upload&sesskey="@
        + sesskey + "&ctx_id="@ + u.1 + "&course="@ + u.2 + "&itemid="@ + draft_id
        + "&client_id="@ + u.0 + "&repo_id="@ + u.5 + "&env="@ + "filemanager"@
        + "&maxbytes="@ + u.3 + "&areamaxbytes="@ + u.4 + "&p="@ + "/"@ + "&page="@
}

fn push_str(v: &mut Vec<char>, s: &str)
    ensures
        final(v)@ == old(v)@ + s@,
{
    let c = chars_of(s);
    append_chars(v, c.as_slice());
}

/// See [`spec_upload_url`].
pub fn upload_url(sesskey: &str, draft_id: &str, u: &UploadSettings) -> (r: String)
    ensures
        r@ == spec_upload_url(sesskey@, draft_id@, upload_settings_view(*u)),
{
    let mut v: Vec<char> = Vec::new();
    push_str(&mut v, crate::types::MOODLE_BASE);
    push_str(&mut v, "/repository/repository_ajax.php?action=upload&sesskey=");
    push_str(&mut v, sesskey);
    push_str(&mut v, "&ctx_id=");
    push_str(&mut v, u.ctx_id.as_str());
    push_str(&mut v, "&course=");
    push_str(&mut v, u.course.as_str());
    push_str(&mut v, "&itemid=");
    push_str(&mut v, draft_id);
    push_str(&mut v, "&client_id=");
    push_str(&mut v, u.client_id.as_str());
    push_str(&mut v, "&repo_id=");
    push_str(&mut v, u.repo_id.as_str());
    push_str(&mut v, "&env=");
    push_str(&mut v, "filemanager");
    push_str(&mut v, "&maxbytes=");
    push_str(&mut v, u.maxbytes.as_str());
    push_str(&mut v, "&areamaxbytes=");
    push_str(&mut v, u.areamaxbytes.as_str());
    push_str(&mut v, "&p=");
    push_str(&mut v, "/");
    push_str(&mut v, "&page=");
    string_of(v.as_slice())
}

/// The last component of a path, as `std::path::Path::file_name` gives it.
pub uninterp spec fn spec_path_file_name(path: Seq<char>) -> Option<Seq<char>>;

/// Calls `Path::new(path).file_name()` and gives the name as text. The
/// contract names the result, a function of the path alone.
#[verifier::external_body]
fn path_file_name(path: &str) -> (r: Option<String>)
    ensures
        opt_str_view(r) == spec_path_file_name(path@),
{
    std::path::Path::new(path).file_name().and_then(|n| n.to_str()).map(String::from)
}

/// The title of an upload: the file name of the path, or `file.pdf`.
pub open spec fn spec_upload_title(path: Seq<char>) -> Seq<char> {
    match spec_path_file_name(path) {
        Some(n) => n,
        None => "file.pdf"@,
    }
}

/// See [`spec_upload_title`].
pub fn upload_title(path: &str) -> (r: String)
    ensures
        r@ == spec_upload_title(path@),
{
    match path_file_name(path) {
        Some(n) => n,
        None => "file.pdf".to_owned(),
    }
}

// ---------------------------------------------------------------------------
// What the replies mean
// ---------------------------------------------------------------------------

/// What the reply to an upload says.
#[derive(PartialEq, Eq, Structural, Clone, Copy, Debug)]
pub enum UploadOutcome {
    /// The reply reports an error.
    Error,
    /// The reply describes the stored file.
    Stored,
    /// A file of that name is already in the draft area.
    FileExists,
    /// None of these; taken as accepted.
    Unrecognised,
}

/// What the reply to an upload says: an error where it holds `"error"`, the
/// stored file where it holds `"url"` and `"file"` but no `fileexists`
/// event, a name clash where it holds that event.
pub open spec fn spec_upload_outcome(reply: Seq<char>) -> UploadOutcome {
    let exists_event = contains(reply, "\"event\":\"fileexists\""@);
    if contains(reply, "\"error\""@) {
        UploadOutcome::Error
    } else if contains(reply, "\"url\""@) && contains(reply, "\"file\""@) && !exists_event {
        UploadOutcome::Stored
    } else if exists_event {
        UploadOutcome::FileExists
    } else {
        UploadOutcome::Unrecognised
    }
}

/// See [`spec_upload_outcome`].
pub fn upload_outcome(reply: &str) -> (r: UploadOutcome)
    ensures
        r == spec_upload_outcome(reply@),
{
    let exists_event = str_contains(reply, "\"event\":\"fileexists\"");
    if str_contains(reply, "\"error\"") {
        UploadOutcome::Error
    } else if str_contains(reply, "\"url\"") && str_contains(reply, "\"file\"") && !exists_event {
        UploadOutcome::Stored
    } else if exists_event {
        UploadOutcome::FileExists
    } else {
        UploadOutcome::Unrecognised
    }
}

/// The clash an upload reply reports: where the existing file is (with
/// escaped slashes unescaped; `/` where missing), its name (empty where
/// missing), and the name given to the new file (empty where missing).
pub struct FileClash {
    pub existing_path: String,
    pub existing_name: String,
    pub new_name: String,
}

pub open spec fn existing_pattern() -> Seq<char> {
    "\"existingfile\":\\{\"filepath\":\"([^\"]+)\",\"filename\":\"([^\"]+)"@
}

pub open spec fn newfile_pattern() -> Seq<char> {
    "\"newfile\":\\{\"filepath\":\"([^\"]+)\",\"filename\":\"([^\"]+)"@
}

pub open spec fn opt_or(o: Option<Seq<char>>, d: Seq<char>) -> Seq<char> {
    match o {
        Some(v) => v,
        None => d,
    }
}

/// The clash that an upload reply reports; `Some(None)` where the reply does
/// not describe the existing file; `None` where a pattern is refused.
pub open spec fn spec_file_clash(reply: Seq<char>) -> Option<Option<(Seq<char>, Seq<char>, Seq<char>)>> {
    match (spec_regex_captures(existing_pattern(), reply), spec_regex_captures(newfile_pattern(), reply)) {
        (Some(existing), Some(newfile)) => match existing {
            None => Some(None),
            Some(gs) => Some(Some((
                match group_at(gs, 1) {
                    Some(p) => replace(p, "\\/"@, "/"@),
                    None => "/"@,
                },
                opt_or(group_at(gs, 2), seq![]),
                match newfile {
                    Some(ngs) => opt_or(group_at(ngs, 2), seq![]),
                    None => seq![],
                },
            ))),
        },
        _ => None,
    }
}

pub open spec fn file_clash_view(c: FileClash) -> (Seq<char>, Seq<char>, Seq<char>) {
    (c.existing_path@, c.existing_name@, c.new_name@)
}

/// See [`spec_file_clash`].
pub fn file_clash(reply: &str) -> (r: Option<Option<FileClash>>)
    ensures
        match r {
            Some(Some(c)) => spec_file_clash(reply@) == Some(Some(file_clash_view(c))),
            Some(None) => spec_file_clash(reply@) == Some(None::<(Seq<char>, Seq<char>, Seq<char>)>),
            None => spec_file_clash(reply@) is None,
        },
{
    let existing = regex_captures("\"existingfile\":\\{\"filepath\":\"([^\"]+)\",\"filename\":\"([^\"]+)", reply);
    let newfile = regex_captures("\"newfile\":\\{\"filepath\":\"([^\"]+)\",\"filename\":\"([^\"]+)", reply);
    match (existing, newfile) {
        (Some(existing), Some(newfile)) => match existing {
            None => Some(None),
            Some(gs) => {
                proof {
                    reveal_strlit("\\/");
                }
                let path = match group_at_exec(&gs, 1) {
                    Some(p) => str_replace(p.as_str(), "\\/", "/"),
                    None => "/".to_owned(),
                };
                let name = match group_at_exec(&gs, 2) {
                    Some(n) => n,
                    None => String::new(),
                };
                let new_name = match newfile {
                    Some(ngs) => match group_at_exec(&ngs, 2) {
                        Some(n) => n,
                        None => String::new(),
                    },
                    None => String::new(),
                };
                Some(Some(FileClash { existing_path: path, existing_name: name, new_name }))
            },
        },
        _ => None,
    }
}

/// The file to delete when overwriting fails: the existing file, or the new
/// one where the reply named no existing file.
pub open spec fn spec_file_to_delete(c: (Seq<char>, Seq<char>, Seq<char>)) -> Seq<char> {
    if c.1.len() > 0 {
        c.1
    } else {
        c.2
    }
}

/// See [`spec_file_to_delete`].
pub fn file_to_delete(c: &FileClash) -> (r: String)
    ensures
        r@ == spec_file_to_delete(file_clash_view(*c)),
{
    if !c.existing_name.as_str().is_empty() {
        c.existing_name.clone()
    } else {
        c.new_name.clone()
    }
}

/// What the reply to an overwrite says.
#[derive(PartialEq, Eq, Structural, Clone, Copy, Debug)]
pub enum OverwriteOutcome {
    Overwritten,
    Failed,
    Unclear,
}

/// An overwrite succeeded where the reply reports the `overwritten` event,
/// names a file path, is `true` or is empty; it failed where it reports an
/// error or is `false`.
pub open spec fn spec_overwrite_outcome(reply: Seq<char>) -> OverwriteOutcome {
    if contains(reply, "\"event\":\"overwritten\""@) || contains(reply, "\"filepath\""@)
        || reply == "true"@ || reply.len() == 0 {
        OverwriteOutcome::Overwritten
    } else if contains(reply, "\"error\""@) || reply == "false"@ {
        OverwriteOutcome::Failed
    } else {
        OverwriteOutcome::Unclear
    }
}

/// See [`spec_overwrite_outcome`].
pub fn overwrite_outcome(reply: &str) -> (r: OverwriteOutcome)
    ensures
        r == spec_overwrite_outcome(reply@),
{
    if str_contains(reply, "\"event\":\"overwritten\"") || str_contains(reply, "\"filepath\"")
        || str_eq(reply, "true") || reply.is_empty() {
        OverwriteOutcome::Overwritten
    } else if str_contains(reply, "\"error\"") || str_eq(reply, "false") {
        OverwriteOutcome::Failed
    } else {
        OverwriteOutcome::Unclear
    }
}

/// A repeated upload succeeded where the reply reports no error and names a
/// file path or a file, or is `true`.
pub open spec fn spec_retry_succeeded(reply: Seq<char>) -> bool {
    !contains(reply, "\"error\""@) && (contains(reply, "\"filepath\""@) || contains(
        reply,
        "\"file\""@,
    ) || reply == "true"@)
}

/// See [`spec_retry_succeeded`].
pub fn retry_succeeded(reply: &str) -> (b: bool)
    ensures
        b == spec_retry_succeeded(reply@),
{
    !str_contains(reply, "\"error\"") && (str_contains(reply, "\"filepath\"") || str_contains(
        reply,
        "\"file\"",
    ) || str_eq(reply, "true"))
}

/// The pattern of the modification time in the edit form.
pub open spec fn lastmodified_pattern() -> Seq<char> {
    "name=\"lastmodified\" value=\"(\\d+)\""@
}

/// The modification time and session key of the edit page after the
/// upload, each kept from before where the page shows none; `None` where a
/// pattern is refused.
pub open spec fn spec_fresh_form_values(page: Seq<char>, lastmodified: Seq<char>, sesskey: Seq<char>) -> Option<(Seq<char>, Seq<char>)> {
    match (optional_group(lastmodified_pattern(), page, lastmodified), optional_group(sesskey_pattern(), page, sesskey)) {
        (Some(lm), Some(sk)) => Some((lm, sk)),
        _ => None,
    }
}

/// See [`spec_fresh_form_values`].
pub fn fresh_form_values(page: &str, lastmodified: &str, sesskey: &str) -> (r: Option<(String, String)>)
    ensures
        match r {
            Some(p) => spec_fresh_form_values(page@, lastmodified@, sesskey@) == Some((p.0@, p.1@)),
            None => spec_fresh_form_values(page@, lastmodified@, sesskey@) is None,
        },
{
    let lm = optional_group_exec("name=\"lastmodified\" value=\"(\\d+)\"", page, lastmodified);
    let sk = optional_group_exec("name=\"sesskey\" value=\"([^\"]+)\"", page, sesskey);
    match (lm, sk) {
        (Some(lm), Some(sk)) => Some((lm, sk)),
        _ => None,
    }
}

/// What the page after submitting says.
#[derive(PartialEq, Eq, Structural, Clone, Copy, Debug)]
pub enum SubmitOutcome {
    Submitted,
    LikelySubmitted,
    LikelyFailed,
    Unclear,
}

/// Submitted where the page shows the submitted status; likely submitted
/// where it mentions success; likely failed where it reports an error.
pub open spec fn spec_submit_outcome(page: Seq<char>) -> SubmitOutcome {
    if contains(page, "submissionstatussubmitted"@) {
        SubmitOutcome::Submitted
    } else if contains(page, "success"@) || contains(page, "Submitted"@) {
        SubmitOutcome::LikelySubmitted
    } else if contains(page, "\"error\""@) || contains(page, "\u{30a8}\u{30e9}\u{30fc}"@) {
        SubmitOutcome::LikelyFailed
    } else {
        SubmitOutcome::Unclear
    }
}

/// See [`spec_submit_outcome`].
pub fn submit_outcome(page: &str) -> (r: SubmitOutcome)
    ensures
        r == spec_submit_outcome(page@),
{
    if str_contains(page, "submissionstatussubmitted") {
        SubmitOutcome::Submitted
    } else if str_contains(page, "success") || str_contains(page, "Submitted") {
        SubmitOutcome::LikelySubmitted
    } else if str_contains(page, "\"error\"") || str_contains(page, "\u{30a8}\u{30e9}\u{30fc}") {
        SubmitOutcome::LikelyFailed
    } else {
        SubmitOutcome::Unclear
    }
}


// ---------------------------------------------------------------------------
// Requests
// ---------------------------------------------------------------------------

/// A (name, value) pair of texts.
pub fn field(a: &str, b: &str) -> (r: (String, String))
    ensures
        r.0@ == a@,
        r.1@ == b@,
{
    (a.to_owned(), b.to_owned())
}

/// The assignment page, with `suffix` after its number.
pub fn assign_url(id: u32, suffix: &str) -> (r: String)
    ensures
        r@ == crate::api::spec_moodle_url_with("/mod/assign/view.php?id="@, id, suffix@),
{
    crate::api::moodle_url_with("/mod/assign/view.php?id=", id, suffix)
}

/// The fields that remove the current submission.
pub open spec fn spec_remove_fields(id: u32, userid: Seq<char>, sesskey: Seq<char>) -> Seq<(Seq<char>, Seq<char>)> {
    seq![
        ("id"@, crate::text::decimal(id as nat)),
        ("action"@, "removesubmission"@),
        ("userid"@, userid),
        ("sesskey"@, sesskey),
    ]
}

/// See [`spec_remove_fields`].
pub fn remove_fields(id: u32, userid: &str, sesskey: &str) -> (r: Vec<(String, String)>)
    ensures
        params_view(r@) == spec_remove_fields(id, userid@, sesskey@),
{
    let d = crate::text::decimal_exec(id as u128);
    let ds = string_of(d.as_slice());
    let mut v: Vec<(String, String)> = Vec::new();
    v.push(field("id", ds.as_str()));
    v.push(field("action", "removesubmission"));
    v.push(field("userid", userid));
    v.push(field("sesskey", sesskey));
    assert(params_view(v@) =~= spec_remove_fields(id, userid@, sesskey@));
    v
}

/// The fields that name the draft area.
pub open spec fn spec_draft_fields(sesskey: Seq<char>, client_id: Seq<char>, draft_id: Seq<char>) -> Seq<(Seq<char>, Seq<char>)> {
    seq![("sesskey"@, sesskey), ("client_id"@, client_id), ("filepath"@, "/"@), ("itemid"@, draft_id)]
}

/// See [`spec_draft_fields`].
pub fn draft_fields(sesskey: &str, client_id: &str, draft_id: &str) -> (r: Vec<(String, String)>)
    ensures
        params_view(r@) == spec_draft_fields(sesskey@, client_id@, draft_id@),
{
    let mut v: Vec<(String, String)> = Vec::new();
    v.push(field("sesskey", sesskey));
    v.push(field("client_id", client_id));
    v.push(field("filepath", "/"));
    v.push(field("itemid", draft_id));
    assert(params_view(v@) =~= spec_draft_fields(sesskey@, client_id@, draft_id@));
    v
}

/// The fields that delete a file of the draft area.
pub open spec fn spec_delete_fields(sesskey: Seq<char>, client_id: Seq<char>, draft_id: Seq<char>, file: Seq<char>) -> Seq<(Seq<char>, Seq<char>)> {
    spec_draft_fields(sesskey, client_id, draft_id) + seq![("selected"@, spec_selected_json(file))]
}

/// See [`spec_delete_fields`].
pub fn delete_fields(sesskey: &str, client_id: &str, draft_id: &str, file: &str) -> (r: Vec<(String, String)>)
    ensures
        params_view(r@) == spec_delete_fields(sesskey@, client_id@, draft_id@, file@),
{
    let mut v = draft_fields(sesskey, client_id, draft_id);
    let j = selected_json(file);
    let ghost before = params_view(v@);
    v.push(field("selected", j.as_str()));
    assert(params_view(v@) =~= before.push(("selected"@, j@)));
    v
}

/// The fields that overwrite the existing file with the upload, keeping its
/// name and place.
pub open spec fn spec_overwrite_fields(
    sesskey: Seq<char>,
    client_id: Seq<char>,
    draft_id: Seq<char>,
    c: (Seq<char>, Seq<char>, Seq<char>),
) -> Seq<(Seq<char>, Seq<char>)> {
    spec_draft_fields(sesskey, client_id, draft_id) + seq![
        ("existingfilename"@, c.1),
        ("existingfilepath"@, c.0),
        ("newfilename"@, c.1),
        ("newfilepath"@, c.0),
    ]
}

/// See [`spec_overwrite_fields`].
pub fn overwrite_fields(sesskey: &str, client_id: &str, draft_id: &str, c: &FileClash) -> (r: Vec<(String, String)>)
    ensures
        params_view(r@) == spec_overwrite_fields(sesskey@, client_id@, draft_id@, file_clash_view(*c)),
{
    let mut v = draft_fields(sesskey, client_id, draft_id);
    let ghost before = params_view(v@);
    v.push(field("existingfilename", c.existing_name.as_str()));
    v.push(field("existingfilepath", c.existing_path.as_str()));
    v.push(field("newfilename", c.existing_name.as_str()));
    v.push(field("newfilepath", c.existing_path.as_str()));
    assert(params_view(v@) =~= spec_overwrite_fields(sesskey@, client_id@, draft_id@, file_clash_view(*c)));
    v
}

/// The text fields of the upload form (the file itself goes with them).
pub open spec fn spec_upload_fields(draft_id: Seq<char>, types: Seq<char>, title: Seq<char>, author: Seq<char>) -> Seq<(Seq<char>, Seq<char>)> {
    seq![("itemid"@, draft_id), ("accepted_types[]"@, types), ("title"@, title), ("author"@, author)]
}

/// See [`spec_upload_fields`].
pub fn upload_fields(draft_id: &str, types: &str, title: &str, author: &str) -> (r: Vec<(String, String)>)
    ensures
        params_view(r@) == spec_upload_fields(draft_id@, types@, title@, author@),
{
    let mut v: Vec<(String, String)> = Vec::new();
    v.push(field("itemid", draft_id));
    v.push(field("accepted_types[]", types));
    v.push(field("title", title));
    v.push(field("author", author));
    assert(params_view(v@) =~= spec_upload_fields(draft_id@, types@, title@, author@));
    v
}

/// The fields of the form that submits the assignment.
pub open spec fn spec_submit_fields(id: u32, userid: Seq<char>, lastmodified: Seq<char>, sesskey: Seq<char>, draft_id: Seq<char>) -> Seq<(Seq<char>, Seq<char>)> {
    seq![
        ("action"@, "savesubmission"@),
        ("id"@, crate::text::decimal(id as nat)),
        ("userid"@, userid),
        ("lastmodified"@, lastmodified),
        ("sesskey"@, sesskey),
        ("_qf__mod_assign_submission_form"@, "1"@),
        ("files_filemanager"@, draft_id),
        ("submitbutton"@, "\u{63d0}\u{51fa}\u{3059}\u{308b}"@),
    ]
}

/// See [`spec_submit_fields`].
pub fn submit_fields(id: u32, userid: &str, lastmodified: &str, sesskey: &str, draft_id: &str) -> (r: Vec<(String, String)>)
    ensures
        params_view(r@) == spec_submit_fields(id, userid@, lastmodified@, sesskey@, draft_id@),
{
    let d = crate::text::decimal_exec(id as u128);
    let ds = string_of(d.as_slice());
    let mut v: Vec<(String, String)> = Vec::new();
    v.push(field("action", "savesubmission"));
    v.push(field("id", ds.as_str()));
    v.push(field("userid", userid));
    v.push(field("lastmodified", lastmodified));
    v.push(field("sesskey", sesskey));
    v.push(field("_qf__mod_assign_submission_form", "1"));
    v.push(field("files_filemanager", draft_id));
    v.push(field("submitbutton", "\u{63d0}\u{51fa}\u{3059}\u{308b}"));
    assert(params_view(v@) =~= spec_submit_fields(id, userid@, lastmodified@, sesskey@, draft_id@));
    v
}


/// What the submission form carries: the draft area, the session key, the
/// modification time and the user.
pub struct SubmissionParams {
    pub draft_id: String,
    pub sesskey: String,
    pub lastmodified: String,
    pub userid: String,
}

/// The values of the submission form: each is the value of the first hidden
/// input of its name, or empty (the user falls back to `12501`).
pub open spec fn spec_submission_params(params: Seq<(Seq<char>, Seq<char>)>) -> (Seq<char>, Seq<char>, Seq<char>, Seq<char>) {
    (
        lookup_or(params, "files_filemanager"@, ""@),
        lookup_or(params, "sesskey"@, ""@),
        lookup_or(params, "lastmodified"@, ""@),
        lookup_or(params, "userid"@, "12501"@),
    )
}

pub open spec fn submission_params_view(p: SubmissionParams) -> (Seq<char>, Seq<char>, Seq<char>, Seq<char>) {
    (p.draft_id@, p.sesskey@, p.lastmodified@, p.userid@)
}

/// See [`spec_submission_params`].
pub fn submission_params(params: &Vec<(String, String)>) -> (r: SubmissionParams)
    ensures
        submission_params_view(r) == spec_submission_params(params_view(params@)),
{
    SubmissionParams {
        draft_id: param_or(params, "files_filemanager", ""),
        sesskey: param_or(params, "sesskey", ""),
        lastmodified: param_or(params, "lastmodified", ""),
        userid: param_or(params, "userid", "12501"),
    }
}

/// The address assignment forms post to.
pub fn assign_post_url() -> (r: String)
    ensures
        r@ == crate::api::spec_moodle_url("/mod/assign/view.php"@),
{
    crate::api::moodle_url("/mod/assign/view.php")
}

/// The address of an action on the draft area (`list`, `deleteselected`,
/// `overwrite`).
pub fn draft_url(action: &str) -> (r: String)
    ensures
        r@ == crate::api::spec_moodle_url("/repository/draftfiles_ajax.php?action="@ + action@),
{
    let mut v = chars_of("/repository/draftfiles_ajax.php?action=");
    let a = chars_of(action);
    append_chars(&mut v, a.as_slice());
    let path = string_of(v.as_slice());
    crate::api::moodle_url(path.as_str())
}


} // verus!
