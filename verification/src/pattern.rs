//! Regular-expression matching, done by the `regex` crate.
//!
//! Each operation compiles its pattern with `regex::Regex::new`; `None` stands
//! for a pattern that the crate refuses.
use vstd::prelude::*;
use regex::Regex;

verus! {

pub open spec fn opt_str_view(o: Option<String>) -> Option<Seq<char>> {
    match o {
        Some(s) => Some(s@),
        None => None,
    }
}

pub open spec fn groups_view(v: Seq<Option<String>>) -> Seq<Option<Seq<char>>> {
    v.map_values(|g: Option<String>| opt_str_view(g))
}

pub open spec fn strings_view(v: Seq<String>) -> Seq<Seq<char>> {
    v.map_values(|s: String| s@)
}

/// `text` with every match of `pattern` replaced by `rep`, where `$n` in
/// `rep` stands for the n-th group (what `Regex::replace_all` gives).
pub uninterp spec fn spec_regex_replace_all(pattern: Seq<char>, text: Seq<char>, rep: Seq<char>) -> Option<Seq<char>>;

/// The groups of the first match of `pattern` in `text` (`Regex::captures`),
/// group 0 being the whole match; `Some(None)` where nothing matches.
pub uninterp spec fn spec_regex_captures(pattern: Seq<char>, text: Seq<char>) -> Option<Option<Seq<Option<Seq<char>>>>>;

/// The groups of every successive non-overlapping match of `pattern` in
/// `text` (`Regex::captures_iter`).
pub uninterp spec fn spec_regex_captures_all(pattern: Seq<char>, text: Seq<char>) -> Option<Seq<Seq<Option<Seq<char>>>>>;

/// The parts of `text` between the matches of `pattern` (`Regex::split`).
pub uninterp spec fn spec_regex_split(pattern: Seq<char>, text: Seq<char>) -> Option<Seq<Seq<char>>>;

/// The texts of the successive non-overlapping matches of `pattern` in
/// `text` (`Regex::find_iter`).
pub uninterp spec fn spec_regex_find_all(pattern: Seq<char>, text: Seq<char>) -> Option<Seq<Seq<char>>>;

/// Compiles `pattern` and calls `Regex::replace_all(text, rep)`. The contract
/// names the result; `None` stands for a pattern that `regex` refuses.
#[verifier::external_body]
pub(crate) fn regex_replace_all(pattern: &str, text: &str, rep: &str) -> (r: Option<String>)
    ensures
        opt_str_view(r) == spec_regex_replace_all(pattern@, text@, rep@),
{
    match Regex::new(pattern) {
        Ok(re) => Some(re.replace_all(text, rep).into_owned()),
        Err(_) => None,
    }
}

/// Compiles `pattern` and calls `Regex::captures(text)`; each group is given
/// as its text. The contract names the result; the outer `None` stands for a
/// pattern that `regex` refuses.
#[verifier::external_body]
pub(crate) fn regex_captures(pattern: &str, text: &str) -> (r: Option<Option<Vec<Option<String>>>>)
    ensures
        match r {
            Some(Some(g)) => spec_regex_captures(pattern@, text@) == Some(Some(groups_view(g@))),
            Some(None) => spec_regex_captures(pattern@, text@) == Some(None::<Seq<Option<Seq<char>>>>),
            None => spec_regex_captures(pattern@, text@) is None,
        },
{
    match Regex::new(pattern) {
        Ok(re) => Some(re.captures(text).map(|c| c.iter().map(|m| m.map(|m| m.as_str().to_string())).collect())),
        Err(_) => None,
    }
}

/// Compiles `pattern` and calls `Regex::captures_iter(text)`; each group is
/// given as its text. The contract names the result; `None` stands for a
/// pattern that `regex` refuses.
#[verifier::external_body]
pub(crate) fn regex_captures_all(pattern: &str, text: &str) -> (r: Option<Vec<Vec<Option<String>>>>)
    ensures
        match r {
            Some(v) => spec_regex_captures_all(pattern@, text@) == Some(v@.map_values(|g: Vec<Option<String>>| groups_view(g@))),
            None => spec_regex_captures_all(pattern@, text@) is None,
        },
{
    match Regex::new(pattern) {
        Ok(re) => Some(re.captures_iter(text).map(|c| c.iter().map(|m| m.map(|m| m.as_str().to_string())).collect()).collect()),
        Err(_) => None,
    }
}

/// Compiles `pattern` and returns the parts that `Regex::split(text)` yields,
/// as texts. The contract names the result; `None` stands for a pattern that
/// `regex` refuses.
#[verifier::external_body]
pub(crate) fn regex_split(pattern: &str, text: &str) -> (r: Option<Vec<String>>)
    ensures
        match r {
            Some(v) => spec_regex_split(pattern@, text@) == Some(strings_view(v@)),
            None => spec_regex_split(pattern@, text@) is None,
        },
{
    match Regex::new(pattern) {
        Ok(re) => Some(re.split(text).map(|s| s.to_string()).collect()),
        Err(_) => None,
    }
}

/// Compiles `pattern` and returns the matches that `Regex::find_iter(text)`
/// yields, as texts. The contract names the result; `None` stands for a
/// pattern that `regex` refuses.
#[verifier::external_body]
pub(crate) fn regex_find_all(pattern: &str, text: &str) -> (r: Option<Vec<String>>)
    ensures
        match r {
            Some(v) => spec_regex_find_all(pattern@, text@) == Some(strings_view(v@)),
            None => spec_regex_find_all(pattern@, text@) is None,
        },
{
    match Regex::new(pattern) {
        Ok(re) => Some(re.find_iter(text).map(|m| m.as_str().to_string()).collect()),
        Err(_) => None,
    }
}


// ---------------------------------------------------------------------------
// Reading groups
// ---------------------------------------------------------------------------

/// The `k`-th group of a match, where it took part.
pub open spec fn group_at(gs: Seq<Option<Seq<char>>>, k: int) -> Option<Seq<char>> {
    if 0 <= k < gs.len() {
        gs[k]
    } else {
        None
    }
}

/// Group 1 of the first match of the first pattern that matches `text`, or
/// `default` where none does. `None` where a pattern tried is refused, or the
/// match has no group 1.
pub open spec fn first_required_group(patterns: Seq<Seq<char>>, text: Seq<char>, default: Seq<char>) -> Option<Seq<char>>
    decreases patterns.len(),
{
    if patterns.len() == 0 {
        Some(default)
    } else {
        match spec_regex_captures(patterns[0], text) {
            None => None,
            Some(None) => first_required_group(patterns.skip(1), text, default),
            Some(Some(gs)) => group_at(gs, 1),
        }
    }
}

/// Group 1 of the first match of `pattern`, or `default` where there is no
/// match or the match has no group 1; `None` where the pattern is refused.
pub open spec fn optional_group(pattern: Seq<char>, text: Seq<char>, default: Seq<char>) -> Option<Seq<char>> {
    match spec_regex_captures(pattern, text) {
        None => None,
        Some(None) => Some(default),
        Some(Some(gs)) => match group_at(gs, 1) {
            Some(g) => Some(g),
            None => Some(default),
        },
    }
}

/// Group 1 of each match that has one, in order.
pub open spec fn groups1(matches: Seq<Seq<Option<Seq<char>>>>) -> Seq<Seq<char>>
    decreases matches.len(),
{
    if matches.len() == 0 {
        seq![]
    } else {
        match group_at(matches[0], 1) {
            Some(g) => seq![g] + groups1(matches.skip(1)),
            None => groups1(matches.skip(1)),
        }
    }
}

/// Group 1 of every match of `pattern` in `text` that has one; `None` where
/// the pattern is refused.
pub open spec fn all_groups1(pattern: Seq<char>, text: Seq<char>) -> Option<Seq<Seq<char>>> {
    match spec_regex_captures_all(pattern, text) {
        None => None,
        Some(ms) => Some(groups1(ms)),
    }
}

pub fn group_at_exec(gs: &Vec<Option<String>>, k: usize) -> (r: Option<String>)
    ensures
        opt_str_view(r) == group_at(groups_view(gs@), k as int),
{
    if k < gs.len() {
        match &gs[k] {
            Some(g) => Some(g.clone()),
            None => None,
        }
    } else {
        None
    }
}

pub open spec fn strs_view(v: Seq<&str>) -> Seq<Seq<char>> {
    v.map_values(|s: &str| s@)
}

/// See [`first_required_group`].
pub fn first_required_group_exec(patterns: &[&str], text: &str, default: &str) -> (r: Option<String>)
    ensures
        opt_str_view(r) == first_required_group(strs_view(patterns@), text@, default@),
{
    let ghost ps = strs_view(patterns@);
    let mut i: usize = 0;
    assert(ps.skip(0) =~= ps);
    while i < patterns.len()
        invariant
            i <= patterns@.len(),
            ps == strs_view(patterns@),
            first_required_group(ps, text@, default@) == first_required_group(ps.skip(i as int), text@, default@),
        decreases patterns.len() - i,
    {
        proof {
            assert(ps.skip(i as int)[0] == ps[i as int]);
            assert(ps.skip(i as int).skip(1) =~= ps.skip(i + 1));
        }
        match regex_captures(patterns[i], text) {
            None => {
                return None;
            },
            Some(None) => {},
            Some(Some(gs)) => {
                return group_at_exec(&gs, 1);
            },
        }
        i = i + 1;
    }
    Some(default.to_owned())
}

/// See [`optional_group`].
pub fn optional_group_exec(pattern: &str, text: &str, default: &str) -> (r: Option<String>)
    ensures
        opt_str_view(r) == optional_group(pattern@, text@, default@),
{
    match regex_captures(pattern, text) {
        None => None,
        Some(None) => Some(default.to_owned()),
        Some(Some(gs)) => match group_at_exec(&gs, 1) {
            Some(g) => Some(g),
            None => Some(default.to_owned()),
        },
    }
}

/// See [`all_groups1`].
pub fn all_groups1_exec(pattern: &str, text: &str) -> (r: Option<Vec<String>>)
    ensures
        match r {
            Some(v) => all_groups1(pattern@, text@) == Some(strings_view(v@)),
            None => all_groups1(pattern@, text@) is None,
        },
{
    let ms = match regex_captures_all(pattern, text) {
        Some(ms) => ms,
        None => return None,
    };
    let ghost mv = ms@.map_values(|g: Vec<Option<String>>| groups_view(g@));
    let mut out: Vec<String> = Vec::new();
    let mut i: usize = ms.len();
    assert(mv.skip(i as int) =~= Seq::<Seq<Option<Seq<char>>>>::empty());
    assert(strings_view(out@) =~= Seq::<Seq<char>>::empty());
    while i > 0
        invariant
            i <= ms@.len(),
            mv == ms@.map_values(|g: Vec<Option<String>>| groups_view(g@)),
            strings_view(out@).reverse() == groups1(mv.skip(i as int)),
        decreases i,
    {
        proof {
            let t = mv.skip(i - 1);
            assert(t[0] == mv[i - 1]);
            assert(t.skip(1) =~= mv.skip(i as int));
        }
        match group_at_exec(&ms[i - 1], 1) {
            Some(g) => {
                let ghost before = strings_view(out@);
                out.push(g);
                proof {
                    assert(strings_view(out@) =~= before.push(g@));
                    assert(before.push(g@).reverse() =~= seq![g@] + before.reverse());
                }
            },
            None => {},
        }
        i = i - 1;
    }
    let ghost fwd = strings_view(out@);
    let mut res: Vec<String> = Vec::new();
    while out.len() > 0
        invariant
            strings_view(res@) + strings_view(out@).reverse() == fwd.reverse(),
        decreases out.len(),
    {
        let ghost before_out = strings_view(out@);
        let ghost before_res = strings_view(res@);
        let last = out.pop().unwrap();
        res.push(last);
        proof {
            assert(before_out =~= strings_view(out@).push(last@));
            assert(strings_view(res@) =~= before_res.push(last@));
            assert(before_out.reverse() =~= seq![last@] + strings_view(out@).reverse());
            assert(strings_view(res@) + strings_view(out@).reverse() =~= before_res + before_out.reverse());
        }
    }
    proof {
        assert(strings_view(out@).reverse() =~= Seq::<Seq<char>>::empty());
        assert(strings_view(res@) =~= fwd.reverse());
        assert(mv.skip(0) =~= mv);
        assert(fwd.reverse().reverse() =~= fwd);
    }
    Some(res)
}

} // verus!
