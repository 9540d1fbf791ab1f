//! Taking a quiz: the questions shown, the forms read, the answers sent.
use vstd::prelude::*;
use crate::api::{attr_or_empty, attr_or_empty_exec};
use crate::assignment::{params_view};
use crate::dom::{
    groups_view, groups2_view, names_view, nodes_view, select, select_nested, select_nested2,
    spec_select, spec_select_nested, spec_select_nested2, Node, NodeView,
};
use crate::pattern::opt_str_view;
use crate::text::{
    append_chars, chars_of, collapse_white_space, collapse_white_space_exec, contains, decimal,
    decimal_exec, parse_u32, parse_u32_exec, parse_usize, parse_usize_exec, split, split_exec,
    str_contains, str_eq, string_of, trim, trim_exec,
};

verus! {

// ---------------------------------------------------------------------------
// Questions
// ---------------------------------------------------------------------------

/// A choice of a question: its label and the name of its input.
pub struct Choice {
    pub text: String,
    pub input: String,
}

/// A question: its text and its choices.
pub struct Question {
    pub text: String,
    pub choices: Vec<Choice>,
}

pub open spec fn choice_view(c: Choice) -> (Seq<char>, Seq<char>) {
    (c.text@, c.input@)
}

pub open spec fn question_view(q: Question) -> (Seq<char>, Seq<(Seq<char>, Seq<char>)>) {
    (q.text@, q.choices@.map_values(|c: Choice| choice_view(c)))
}

pub open spec fn questions_view(v: Seq<Question>) -> Seq<(Seq<char>, Seq<(Seq<char>, Seq<char>)>)> {
    v.map_values(|q: Question| question_view(q))
}

/// The first node with tag `tag`.
pub open spec fn first_tagged(nodes: Seq<NodeView>, tag: Seq<char>) -> Option<NodeView>
    decreases nodes.len(),
{
    if nodes.len() == 0 {
        None
    } else if nodes[0].tag == tag {
        Some(nodes[0])
    } else {
        first_tagged(nodes.skip(1), tag)
    }
}

/// The label of the `a`-th choice (counting from 0): the words of its first
/// label, or `Choice <a+1>`.
pub open spec fn choice_label(inner: Seq<NodeView>, a: int) -> Seq<char> {
    match first_tagged(inner, "label"@) {
        Some(l) => collapse_white_space(l.text),
        None => "Choice "@ + decimal((a + 1) as nat),
    }
}

/// The name of the first input of a choice, or the empty text.
pub open spec fn choice_input(inner: Seq<NodeView>) -> Seq<char> {
    match first_tagged(inner, "input"@) {
        Some(i) => attr_or_empty(i, 0),
        None => seq![],
    }
}

/// The choices of a question, from its rows and what each row holds.
pub open spec fn choices_of(rows: Seq<(NodeView, Seq<NodeView>)>) -> Seq<(Seq<char>, Seq<char>)> {
    Seq::new(rows.len(), |a: int| (choice_label(rows[a].1, a), choice_input(rows[a].1)))
}

/// The text of the `q`-th question: the words of its first `.qtext`, or the
/// empty text.
pub open spec fn question_text(texts: Seq<(NodeView, Seq<NodeView>)>, q: int) -> Seq<char> {
    if 0 <= q < texts.len() && texts[q].1.len() > 0 {
        collapse_white_space(texts[q].1[0].text)
    } else {
        seq![]
    }
}

pub open spec fn row_selector() -> Seq<char> {
    ".r0, .r1"@
}

pub open spec fn row_content_selector() -> Seq<char> {
    "label, input[type=checkbox], input[type=radio]"@
}

/// The questions of a page (`.que` elements), with their texts and the
/// choices of their `.r0`/`.r1` rows; `None` where a selector is refused.
pub open spec fn spec_questions(body: Seq<char>) -> Option<Seq<(Seq<char>, Seq<(Seq<char>, Seq<char>)>)>> {
    match (
        spec_select_nested(body, ".que"@, ".qtext"@, seq!["name"@]),
        spec_select_nested2(body, ".que"@, row_selector(), row_content_selector(), seq!["name"@]),
    ) {
        (Some(texts), Some(rows)) => Some(
            Seq::new(rows.len(), |q: int| (question_text(texts, q), choices_of(rows[q]))),
        ),
        _ => None,
    }
}

fn first_tagged_exec(nodes: &Vec<Node>, tag: &str) -> (r: Option<usize>)
    ensures
        match r {
            Some(i) => i < nodes@.len() && first_tagged(nodes_view(nodes@), tag@) == Some(nodes@[i as int]@),
            None => first_tagged(nodes_view(nodes@), tag@) is None,
        },
{
    let ghost ns = nodes_view(nodes@);
    let mut i: usize = 0;
    assert(ns.skip(0) =~= ns);
    while i < nodes.len()
        invariant
            i <= nodes@.len(),
            ns == nodes_view(nodes@),
            first_tagged(ns, tag@) == first_tagged(ns.skip(i as int), tag@),
        decreases nodes.len() - i,
    {
        proof {
            assert(ns.skip(i as int)[0] == ns[i as int]);
            assert(ns.skip(i as int).skip(1) =~= ns.skip(i + 1));
        }
        if str_eq(nodes[i].tag.as_str(), tag) {
            return Some(i);
        }
        i = i + 1;
    }
    None
}

/// The questions of a page (see [`spec_questions`]).
pub fn questions(body: &str) -> (r: Option<Vec<Question>>)
    ensures
        match r {
            Some(v) => spec_questions(body@) == Some(questions_view(v@)),
            None => spec_questions(body@) is None,
        },
{
    let mut names: Vec<&'static str> = Vec::new();
    names.push("name");
    assert(names_view(names@) =~= seq!["name"@]);
    let texts = select_nested(body, ".que", ".qtext", names.as_slice());
    let rows = select_nested2(body, ".que", ".r0, .r1", "label, input[type=checkbox], input[type=radio]", names.as_slice());
    let (texts, rows) = match (texts, rows) {
        (Some(t), Some(r)) => (t, r),
        _ => return None,
    };
    let ghost tv = groups_view(texts@);
    let ghost rv = groups2_view(rows@);
    let mut out: Vec<Question> = Vec::new();
    let mut q: usize = 0;
    while q < rows.len()
        invariant
            q <= rows@.len(),
            tv == groups_view(texts@),
            rv == groups2_view(rows@),
            out@.len() == q,
            forall|k: int| 0 <= k < q ==> #[trigger] question_view(out@[k]) == (
                question_text(tv, k),
                choices_of(rv[k]),
            ),
        decreases rows.len() - q,
    {
        let text = if q < texts.len() && texts[q].1.len() > 0 {
            collapse_white_space_exec(texts[q].1[0].text.as_str())
        } else {
            String::new()
        };
        let qrows = &rows[q];
        let ghost rq = rv[q as int];
        assert(rq == groups_view(qrows@));
        let mut choices: Vec<Choice> = Vec::new();
        let mut a: usize = 0;
        while a < qrows.len()
            invariant
                a <= qrows@.len(),
                rq == groups_view(qrows@),
                choices@.len() == a,
                forall|k: int| 0 <= k < a ==> #[trigger] choice_view(choices@[k]) == (
                    choice_label(rq[k].1, k),
                    choice_input(rq[k].1),
                ),
            decreases qrows.len() - a,
        {
            let inner = &qrows[a].1;
            assert(rq[a as int].1 == nodes_view(inner@));
            let label = match first_tagged_exec(inner, "label") {
                Some(i) => collapse_white_space_exec(inner[i].text.as_str()),
                None => {
                    let mut v = chars_of("Choice ");
                    let d = decimal_exec(a as u128 + 1);
                    append_chars(&mut v, d.as_slice());
                    string_of(v.as_slice())
                },
            };
            let input = match first_tagged_exec(inner, "input") {
                Some(i) => attr_or_empty_exec(&inner[i], 0),
                None => String::new(),
            };
            choices.push(Choice { text: label, input });
            a = a + 1;
        }
        proof {
            assert(choices@.map_values(|c: Choice| choice_view(c)) =~= choices_of(rq));
        }
        out.push(Question { text, choices });
        q = q + 1;
    }
    proof {
        assert(questions_view(out@) =~= Seq::new(
            rv.len(),
            |k: int| (question_text(tv, k), choices_of(rv[k])),
        ));
    }
    Some(out)
}

/// Whether the page holds questions (`.que` elements); `None` where the
/// selector is refused.
pub open spec fn spec_has_questions(body: Seq<char>) -> Option<bool> {
    match spec_select(body, ".que"@, seq![]) {
        Some(ns) => Some(ns.len() > 0),
        None => None,
    }
}

/// See [`spec_has_questions`].
pub fn has_questions(body: &str) -> (r: Option<bool>)
    ensures
        r == spec_has_questions(body@),
{
    let names: Vec<&'static str> = Vec::new();
    assert(names_view(names@) =~= Seq::<Seq<char>>::empty());
    match select(body, ".que", names.as_slice()) {
        Some(ns) => Some(ns.len() > 0),
        None => None,
    }
}

/// A quiz address shows a review or summary of an attempt.
pub open spec fn spec_is_review_url(url: Seq<char>) -> bool {
    contains(url, "review.php"@) || contains(url, "summary.php"@)
}

/// See [`spec_is_review_url`].
pub fn is_review_url(url: &str) -> (b: bool)
    ensures
        b == spec_is_review_url(url@),
{
    str_contains(url, "review.php") || str_contains(url, "summary.php")
}

// ---------------------------------------------------------------------------
// Starting an attempt
// ---------------------------------------------------------------------------

/// The value of the first node's first attribute, where both exist.
pub open spec fn first_value(nodes: Seq<NodeView>) -> Option<Seq<char>> {
    if nodes.len() > 0 && nodes[0].attrs.len() > 0 {
        nodes[0].attrs[0]
    } else {
        None
    }
}

/// What starting an attempt needs from the quiz page: the module number and
/// the session key, where the page shows both. `None` where a selector is
/// refused.
pub open spec fn spec_start_info(body: Seq<char>) -> Option<Option<(u32, Seq<char>)>> {
    match (
        spec_select(body, "input[name=cmid]"@, seq!["value"@]),
        spec_select(body, "input[name=sesskey]"@, seq!["value"@]),
    ) {
        (Some(c), Some(k)) => {
            let cmid = match first_value(c) {
                Some(v) => parse_u32(v),
                None => None,
            };
            match (cmid, first_value(k)) {
                (Some(id), Some(key)) => Some(Some((id, key))),
                _ => Some(None),
            }
        },
        _ => None,
    }
}

fn first_value_exec(nodes: &Vec<Node>) -> (r: Option<String>)
    ensures
        opt_str_view(r) == first_value(nodes_view(nodes@)),
{
    if nodes.len() > 0 && nodes[0].attrs.len() > 0 {
        assert(nodes_view(nodes@)[0] == nodes@[0]@);
        match &nodes[0].attrs[0] {
            Some(v) => Some(v.clone()),
            None => None,
        }
    } else {
        None
    }
}

/// See [`spec_start_info`].
pub fn start_info(body: &str) -> (r: Option<Option<(u32, String)>>)
    ensures
        match r {
            Some(Some(p)) => spec_start_info(body@) == Some(Some((p.0, p.1@))),
            Some(None) => spec_start_info(body@) == Some(None::<(u32, Seq<char>)>),
            None => spec_start_info(body@) is None,
        },
{
    let mut names: Vec<&'static str> = Vec::new();
    names.push("value");
    assert(names_view(names@) =~= seq!["value"@]);
    let c = select(body, "input[name=cmid]", names.as_slice());
    let k = select(body, "input[name=sesskey]", names.as_slice());
    match (c, k) {
        (Some(c), Some(k)) => {
            let cmid = match first_value_exec(&c) {
                Some(v) => {
                    let vc = chars_of(v.as_str());
                    parse_u32_exec(vc.as_slice())
                },
                None => None,
            };
            match (cmid, first_value_exec(&k)) {
                (Some(id), Some(key)) => Some(Some((id, key))),
                _ => Some(None),
            }
        },
        _ => None,
    }
}

/// The id of the confirmation form of a timed quiz.
pub open spec fn preflight_form_id() -> Seq<char> {
    "mod_quiz_preflight_form"@
}

/// The value of the `k`-th attribute asked of a node, where present.
pub open spec fn attr_opt(n: NodeView, k: int) -> Option<Seq<char>> {
    if 0 <= k < n.attrs.len() {
        n.attrs[k]
    } else {
        None
    }
}

/// The value of the `k`-th attribute asked of a node, where present.
pub fn attr_opt_exec(n: &Node, k: usize) -> (r: Option<String>)
    ensures
        opt_str_view(r) == attr_opt(n@, k as int),
{
    if k < n.attrs.len() {
        match &n.attrs[k] {
            Some(v) => Some(v.clone()),
            None => None,
        }
    } else {
        None
    }
}

/// The first form with the given id.
pub open spec fn form_with_id(forms: Seq<(NodeView, Seq<NodeView>)>, id: Seq<char>) -> Option<(NodeView, Seq<NodeView>)>
    decreases forms.len(),
{
    if forms.len() == 0 {
        None
    } else if form_id(forms[0].0) == id {
        Some(forms[0])
    } else {
        form_with_id(forms.skip(1), id)
    }
}

/// The (name, value) pairs of the inputs that have a name, in order.
pub open spec fn named_pairs(inputs: Seq<NodeView>) -> Seq<(Seq<char>, Seq<char>)>
    decreases inputs.len(),
{
    if inputs.len() == 0 {
        seq![]
    } else {
        let name = input_name(inputs[0]);
        let rest = named_pairs(inputs.skip(1));
        if name.len() > 0 {
            seq![(name, input_value(inputs[0]))] + rest
        } else {
            rest
        }
    }
}

/// The attributes asked of forms and inputs: id, action, name, type, value.
pub fn form_names() -> (r: Vec<&'static str>)
    ensures
        names_view(r@) == seq!["id"@, "action"@, "name"@, "type"@, "value"@],
{
    let mut v: Vec<&'static str> = Vec::new();
    v.push("id");
    v.push("action");
    v.push("name");
    v.push("type");
    v.push("value");
    assert(names_view(v@) =~= seq!["id"@, "action"@, "name"@, "type"@, "value"@]);
    v
}

pub open spec fn form_names_view() -> Seq<Seq<char>> {
    seq!["id"@, "action"@, "name"@, "type"@, "value"@]
}

/// The `id` of a form read with [`form_names`].
pub open spec fn form_id(n: NodeView) -> Seq<char> {
    attr_or_empty(n, 0)
}

/// The `action` of a form read with [`form_names`].
pub open spec fn form_action(n: NodeView) -> Seq<char> {
    attr_or_empty(n, 1)
}

/// The `name` of an input read with [`form_names`].
pub open spec fn input_name(n: NodeView) -> Seq<char> {
    attr_or_empty(n, 2)
}

/// The `value` of an input read with [`form_names`].
pub open spec fn input_value(n: NodeView) -> Seq<char> {
    attr_or_empty(n, 4)
}

/// The confirmation a timed quiz asks for before an attempt: where the page
/// holds the confirmation form, the address to send it to (its action, or
/// the start address) and its named hidden inputs followed by the start
/// button. `None` where a selector is refused.
pub open spec fn spec_preflight(body: Seq<char>) -> Option<Option<(Seq<char>, Seq<(Seq<char>, Seq<char>)>)>> {
    match spec_select_nested(body, "form"@, "input[type=hidden]"@, form_names_view()) {
        None => None,
        Some(forms) => match form_with_id(forms, preflight_form_id()) {
            None => Some(None),
            Some(f) => Some(Some((
                match attr_opt(f.0, 1) {
                    Some(a) => a,
                    None => crate::api::spec_moodle_url("/mod/quiz/startattempt.php"@),
                },
                named_pairs(f.1) + seq![("submitbutton"@, "\u{53d7}\u{9a13}\u{3092}\u{958b}\u{59cb}\u{3059}\u{308b}"@)],
            ))),
        },
    }
}

fn named_pairs_exec(inputs: &Vec<Node>) -> (r: Vec<(String, String)>)
    ensures
        params_view(r@) == named_pairs(nodes_view(inputs@)),
{
    let ghost ns = nodes_view(inputs@);
    let mut out: Vec<(String, String)> = Vec::new();
    let mut i: usize = inputs.len();
    assert(ns.skip(i as int) =~= Seq::<NodeView>::empty());
    assert(params_view(out@) =~= Seq::<(Seq<char>, Seq<char>)>::empty());
    while i > 0
        invariant
            i <= inputs@.len(),
            ns == nodes_view(inputs@),
            params_view(out@).reverse() == named_pairs(ns.skip(i as int)),
        decreases i,
    {
        let name = attr_or_empty_exec(&inputs[i - 1], 2);
        proof {
            let t = ns.skip(i - 1);
            assert(t[0] == ns[i - 1]);
            assert(t.skip(1) =~= ns.skip(i as int));
        }
        if !name.as_str().is_empty() {
            let value = attr_or_empty_exec(&inputs[i - 1], 4);
            let ghost before = params_view(out@);
            out.push((name, value));
            proof {
                assert(params_view(out@) =~= before.push((name@, value@)));
                assert(before.push((name@, value@)).reverse() =~= seq![(name@, value@)] + before.reverse());
            }
        }
        i = i - 1;
    }
    let ghost fwd = params_view(out@);
    let mut res: Vec<(String, String)> = Vec::new();
    while out.len() > 0
        invariant
            params_view(res@) + params_view(out@).reverse() == fwd.reverse(),
        decreases out.len(),
    {
        let ghost bo = params_view(out@);
        let ghost br = params_view(res@);
        let last = out.pop().unwrap();
        proof {
            assert(bo =~= params_view(out@).push((last.0@, last.1@)));
        }
        res.push(last);
        proof {
            assert(params_view(res@) =~= br.push((last.0@, last.1@)));
            assert(bo.reverse() =~= seq![(last.0@, last.1@)] + params_view(out@).reverse());
            assert(params_view(res@) + params_view(out@).reverse() =~= br + bo.reverse());
        }
    }
    proof {
        assert(params_view(out@).reverse() =~= Seq::<(Seq<char>, Seq<char>)>::empty());
        assert(params_view(res@) =~= fwd.reverse());
        assert(ns.skip(0) =~= ns);
        assert(fwd.reverse().reverse() =~= fwd);
    }
    res
}

/// See [`spec_preflight`].
pub fn preflight(body: &str) -> (r: Option<Option<(String, Vec<(String, String)>)>>)
    ensures
        match r {
            Some(Some(p)) => spec_preflight(body@) == Some(Some((p.0@, params_view(p.1@)))),
            Some(None) => spec_preflight(body@) == Some(None::<(Seq<char>, Seq<(Seq<char>, Seq<char>)>)>),
            None => spec_preflight(body@) is None,
        },
{
    let names = form_names();
    let forms = match select_nested(body, "form", "input[type=hidden]", names.as_slice()) {
        Some(f) => f,
        None => return None,
    };
    let ghost fs = groups_view(forms@);
    let mut i: usize = 0;
    assert(fs.skip(0) =~= fs);
    while i < forms.len()
        invariant
            i <= forms@.len(),
            fs == groups_view(forms@),
            spec_select_nested(body@, "form"@, "input[type=hidden]"@, form_names_view()) == Some(fs),
            form_with_id(fs, preflight_form_id()) == form_with_id(fs.skip(i as int), preflight_form_id()),
        decreases forms.len() - i,
    {
        proof {
            assert(fs.skip(i as int)[0] == fs[i as int]);
            assert(fs.skip(i as int).skip(1) =~= fs.skip(i + 1));
        }
        let id = attr_or_empty_exec(&forms[i].0, 0);
        if str_eq(id.as_str(), "mod_quiz_preflight_form") {
            let form = &forms[i].0;
            assert(fs[i as int].0 == form@);
            let action = match attr_opt_exec(form, 1) {
                Some(a) => a,
                None => start_attempt_url(),
            };
            let mut params = named_pairs_exec(&forms[i].1);
            let ghost before = params_view(params@);
            params.push(("submitbutton".to_owned(), "\u{53d7}\u{9a13}\u{3092}\u{958b}\u{59cb}\u{3059}\u{308b}".to_owned()));
            proof {
                assert(params_view(params@) =~= before + seq![("submitbutton"@, "\u{53d7}\u{9a13}\u{3092}\u{958b}\u{59cb}\u{3059}\u{308b}"@)]);
            }
            return Some(Some((action, params)));
        }
        i = i + 1;
    }
    Some(None)
}


// ---------------------------------------------------------------------------
// Answering
// ---------------------------------------------------------------------------

/// The form that sends answers: its address, its named hidden inputs, the
/// names of the choices that are checked by value `1`, the value of its
/// unnamed input, and whether a further page follows.
pub struct AttemptForm {
    pub action: String,
    pub hidden: Vec<(String, String)>,
    pub choices: Vec<String>,
    pub unlabeled: Option<String>,
    pub more_pages: bool,
}

/// What an attempt page holds.
pub enum AttemptPage {
    /// No form sends answers; whether the page shows questions.
    NoForm { has_questions: bool },
    /// A form sends answers but the page shows no question.
    NoQuestions,
    /// Questions and the form that sends their answers.
    Questions { form: AttemptForm },
}

/// The index of the first form whose action mentions `processattempt`.
pub open spec fn process_form_index(forms: Seq<(NodeView, Seq<NodeView>)>) -> Option<int>
    decreases forms.len(),
{
    if forms.len() == 0 {
        None
    } else if contains(form_action(forms[0].0), "processattempt"@) {
        Some(0)
    } else {
        match process_form_index(forms.skip(1)) {
            Some(i) => Some(i + 1),
            None => None,
        }
    }
}

/// The type of an input, `text` where it has none.
pub open spec fn input_type(n: NodeView) -> Seq<char> {
    match attr_opt(n, 3) {
        Some(t) => t,
        None => "text"@,
    }
}

/// A choice input: a check box or radio button whose name mentions `choice`.
pub open spec fn is_choice_input(n: NodeView) -> bool {
    (input_type(n) == "checkbox"@ || input_type(n) == "radio"@) && contains(input_name(n), "choice"@)
}

/// The names of the choice inputs whose value is `1`, in order.
pub open spec fn checked_choices(inputs: Seq<NodeView>) -> Seq<Seq<char>>
    decreases inputs.len(),
{
    if inputs.len() == 0 {
        seq![]
    } else {
        let rest = checked_choices(inputs.skip(1));
        if is_choice_input(inputs[0]) && input_value(inputs[0]) == "1"@ {
            seq![input_name(inputs[0])] + rest
        } else {
            rest
        }
    }
}

/// The (name, value) pairs of the named hidden inputs that are not choices.
pub open spec fn hidden_pairs(inputs: Seq<NodeView>) -> Seq<(Seq<char>, Seq<char>)>
    decreases inputs.len(),
{
    if inputs.len() == 0 {
        seq![]
    } else {
        let rest = hidden_pairs(inputs.skip(1));
        let n = inputs[0];
        if !is_choice_input(n) && input_type(n) == "hidden"@ && input_name(n).len() > 0 {
            seq![(input_name(n), input_value(n))] + rest
        } else {
            rest
        }
    }
}

/// Whether the page says a further page of questions follows: the value of
/// its first `nextpage` input is neither `-1` nor empty.
pub open spec fn more_pages(nodes: Seq<NodeView>) -> bool {
    match first_value(nodes) {
        Some(v) => v != "-1"@ && v.len() > 0,
        None => false,
    }
}

/// The value of the first unnamed input of the form, where not empty.
pub open spec fn unlabeled_value(groups: Seq<(NodeView, Seq<NodeView>)>, k: int) -> Option<Seq<char>> {
    if 0 <= k < groups.len() && groups[k].1.len() > 0 {
        let v = input_value(groups[k].1[0]);
        if v.len() > 0 { Some(v) } else { None }
    } else {
        None
    }
}

pub open spec fn attempt_form_view(f: AttemptForm) -> (Seq<char>, Seq<(Seq<char>, Seq<char>)>, Seq<Seq<char>>, Option<Seq<char>>, bool) {
    (f.action@, params_view(f.hidden@), f.choices@.map_values(|c: String| c@), opt_str_view(f.unlabeled), f.more_pages)
}

/// The view of an attempt page: `(0, has questions, _)` for no form,
/// `(1, _, _)` for a form without questions, `(2, _, form)` for questions.
pub open spec fn attempt_page_view(p: AttemptPage) -> (nat, bool, Option<(Seq<char>, Seq<(Seq<char>, Seq<char>)>, Seq<Seq<char>>, Option<Seq<char>>, bool)>) {
    match p {
        AttemptPage::NoForm { has_questions } => (0, has_questions, None),
        AttemptPage::NoQuestions => (1, false, None),
        AttemptPage::Questions { form } => (2, true, Some(attempt_form_view(form))),
    }
}

/// What an attempt page holds; `None` where a selector is refused.
pub open spec fn spec_attempt_page(body: Seq<char>) -> Option<(nat, bool, Option<(Seq<char>, Seq<(Seq<char>, Seq<char>)>, Seq<Seq<char>>, Option<Seq<char>>, bool)>)> {
    match (
        spec_has_questions(body),
        spec_select_nested(body, "form"@, "input"@, form_names_view()),
        spec_select_nested(body, "form"@, "input[name='']"@, form_names_view()),
        spec_select(body, "input[name=nextpage][value]"@, seq!["value"@]),
    ) {
        (Some(has_q), Some(forms), Some(unnamed), Some(next)) => match process_form_index(forms) {
            None => Some((0, has_q, None)),
            Some(k) => if !has_q {
                Some((1, false, None))
            } else {
                Some((2, true, Some((
                    form_action(forms[k].0),
                    hidden_pairs(forms[k].1),
                    checked_choices(forms[k].1),
                    unlabeled_value(unnamed, k),
                    more_pages(next),
                ))))
            },
        },
        _ => None,
    }
}

proof fn lemma_process_form_index(forms: Seq<(NodeView, Seq<NodeView>)>)
    ensures
        process_form_index(forms) matches Some(k) ==> 0 <= k < forms.len() && contains(
            form_action(forms[k].0),
            "processattempt"@,
        ),
    decreases forms.len(),
{
    if forms.len() > 0 {
        lemma_process_form_index(forms.skip(1));
        if let Some(k) = process_form_index(forms.skip(1)) {
            assert(forms.skip(1)[k] == forms[k + 1]);
        }
    }
}

/// Answers, and the request that finishes an attempt, go only to the
/// address of a form that mentions `processattempt`.
pub proof fn lemma_answers_go_to_processattempt(body: Seq<char>)
    ensures
        spec_attempt_page(body) matches Some((kind, q, Some(f))) ==> contains(f.0, "processattempt"@),
        spec_finish_request(body) matches Some(Some((a, pairs))) ==> contains(a, "processattempt"@),
{
    if let Some(forms) = spec_select_nested(body, "form"@, "input"@, form_names_view()) {
        lemma_process_form_index(forms);
    }
}

/// On a page of questions, a further page follows exactly when the value of
/// the page's first `nextpage` input is neither `-1` nor empty (so a page
/// number such as `2` means more pages), and the answers are then sent with
/// the button `次のページ`; otherwise with `テストを終了する ...`.
pub proof fn lemma_more_pages_from_nextpage(body: Seq<char>, picks: Seq<nat>)
    ensures
        spec_attempt_page(body) matches Some((kind, q, Some(f))) ==> {
            &&& spec_select(body, "input[name=nextpage][value]"@, seq!["value"@]) matches Some(next)
            &&& f.4 == (next.len() > 0 && next[0].attrs.len() > 0 && (next[0].attrs[0] matches Some(v)
                && v != "-1"@ && v.len() > 0))
            &&& spec_answer_params(f, picks)[f.1.len() as int] == ("next"@, if f.4 {
                "\u{6b21}\u{306e}\u{30da}\u{30fc}\u{30b8}"@
            } else {
                "\u{30c6}\u{30b9}\u{30c8}\u{3092}\u{7d42}\u{4e86}\u{3059}\u{308b} ..."@
            })
        },
{
    if let Some((kind, q, Some(f))) = spec_attempt_page(body) {
        let p = spec_answer_params(f, picks);
        let tail = match f.3 {
            Some(v) => seq![("_qf__mod_quiz_attempt_form"@, v)],
            None => seq![],
        } + Seq::new(picks.len(), |i: int| (f.2[picks[i] as int], "1"@));
        assert(p =~= f.1 + (seq![("next"@, next_button(f.4))] + tail));
        assert(p[f.1.len() as int] == ("next"@, next_button(f.4)));
    }
}

/// A `nextpage` value that is a page number means a further page follows.
pub proof fn lemma_page_number_means_more(nodes: Seq<NodeView>, n: nat)
    requires
        nodes.len() > 0,
        nodes[0].attrs.len() > 0,
        nodes[0].attrs[0] == Some(decimal(n)),
    ensures
        more_pages(nodes),
{
    crate::text::lemma_decimal_digits(n);
    reveal_strlit("-1");
    if decimal(n) == "-1"@ {
        assert(crate::text::is_digit(decimal(n)[0]));
    }
}

fn process_form_index_exec(forms: &Vec<(Node, Vec<Node>)>) -> (r: Option<usize>)
    ensures
        match r {
            Some(k) => process_form_index(groups_view(forms@)) == Some(k as int) && k < forms@.len(),
            None => process_form_index(groups_view(forms@)) is None,
        },
{
    let ghost fs = groups_view(forms@);
    let mut i: usize = 0;
    while i < forms.len()
        invariant
            i <= forms@.len(),
            fs == groups_view(forms@),
            forall|k: int| 0 <= k < i ==> !contains(form_action(#[trigger] fs[k].0), "processattempt"@),
        decreases forms.len() - i,
    {
        let action = attr_or_empty_exec(&forms[i].0, 1);
        if str_contains(action.as_str(), "processattempt") {
            proof {
                lemma_process_form_first(fs, i as int);
            }
            return Some(i);
        }
        i = i + 1;
    }
    proof {
        lemma_process_form_none(fs);
    }
    None
}

proof fn lemma_process_form_first(fs: Seq<(NodeView, Seq<NodeView>)>, i: int)
    requires
        0 <= i < fs.len(),
        contains(form_action(fs[i].0), "processattempt"@),
        forall|k: int| 0 <= k < i ==> !contains(form_action(#[trigger] fs[k].0), "processattempt"@),
    ensures
        process_form_index(fs) == Some(i),
    decreases i,
{
    if i > 0 {
        assert forall|k: int| 0 <= k < i - 1 implies !contains(form_action(#[trigger] fs.skip(1)[k].0), "processattempt"@) by {
            assert(fs.skip(1)[k] == fs[k + 1]);
        }
        assert(fs.skip(1)[i - 1] == fs[i]);
        lemma_process_form_first(fs.skip(1), i - 1);
    }
}

proof fn lemma_process_form_none(fs: Seq<(NodeView, Seq<NodeView>)>)
    requires
        forall|k: int| 0 <= k < fs.len() ==> !contains(form_action(#[trigger] fs[k].0), "processattempt"@),
    ensures
        process_form_index(fs) is None,
    decreases fs.len(),
{
    if fs.len() > 0 {
        assert forall|k: int| 0 <= k < fs.len() - 1 implies !contains(form_action(#[trigger] fs.skip(1)[k].0), "processattempt"@) by {
            assert(fs.skip(1)[k] == fs[k + 1]);
        }
        lemma_process_form_none(fs.skip(1));
    }
}

fn input_type_exec(n: &Node) -> (r: String)
    ensures
        r@ == input_type(n@),
{
    match attr_opt_exec(n, 3) {
        Some(t) => t,
        None => "text".to_owned(),
    }
}

fn is_choice_input_exec(n: &Node) -> (b: bool)
    ensures
        b == is_choice_input(n@),
{
    let t = input_type_exec(n);
    let name = attr_or_empty_exec(n, 2);
    (str_eq(t.as_str(), "checkbox") || str_eq(t.as_str(), "radio")) && str_contains(name.as_str(), "choice")
}

/// The checked choices and the hidden pairs of a form's inputs.
fn classify_inputs(inputs: &Vec<Node>) -> (r: (Vec<String>, Vec<(String, String)>))
    ensures
        r.0@.map_values(|c: String| c@) == checked_choices(nodes_view(inputs@)),
        params_view(r.1@) == hidden_pairs(nodes_view(inputs@)),
{
    let ghost ns = nodes_view(inputs@);
    let mut choices: Vec<String> = Vec::new();
    let mut hidden: Vec<(String, String)> = Vec::new();
    let mut i: usize = inputs.len();
    assert(ns.skip(i as int) =~= Seq::<NodeView>::empty());
    assert(choices@.map_values(|c: String| c@) =~= Seq::<Seq<char>>::empty());
    assert(params_view(hidden@) =~= Seq::<(Seq<char>, Seq<char>)>::empty());
    while i > 0
        invariant
            i <= inputs@.len(),
            ns == nodes_view(inputs@),
            choices@.map_values(|c: String| c@).reverse() == checked_choices(ns.skip(i as int)),
            params_view(hidden@).reverse() == hidden_pairs(ns.skip(i as int)),
        decreases i,
    {
        let n = &inputs[i - 1];
        proof {
            let t = ns.skip(i - 1);
            assert(t[0] == ns[i - 1]);
            assert(t.skip(1) =~= ns.skip(i as int));
            assert(ns[i - 1] == n@);
        }
        let name = attr_or_empty_exec(n, 2);
        let value = attr_or_empty_exec(n, 4);
        let choice = is_choice_input_exec(n);
        if choice && str_eq(value.as_str(), "1") {
            let ghost before = choices@.map_values(|c: String| c@);
            choices.push(name.clone());
            proof {
                assert(choices@.map_values(|c: String| c@) =~= before.push(name@));
                assert(before.push(name@).reverse() =~= seq![name@] + before.reverse());
            }
        }
        let t = input_type_exec(n);
        if !choice && str_eq(t.as_str(), "hidden") && !name.as_str().is_empty() {
            let ghost before = params_view(hidden@);
            hidden.push((name, value));
            proof {
                assert(params_view(hidden@) =~= before.push((name@, value@)));
                assert(before.push((name@, value@)).reverse() =~= seq![(name@, value@)] + before.reverse());
            }
        }
        i = i - 1;
    }
    proof {
        assert(ns.skip(0) =~= ns);
    }
    let choices = reverse_strings(choices);
    let hidden = reverse_pairs(hidden);
    (choices, hidden)
}

fn reverse_strings(v: Vec<String>) -> (r: Vec<String>)
    ensures
        r@.map_values(|c: String| c@) == v@.map_values(|c: String| c@).reverse(),
{
    let mut v = v;
    let ghost fwd = v@.map_values(|c: String| c@);
    let mut res: Vec<String> = Vec::new();
    assert(res@.map_values(|c: String| c@) + fwd.reverse() =~= fwd.reverse());
    while v.len() > 0
        invariant
            res@.map_values(|c: String| c@) + v@.map_values(|c: String| c@).reverse() == fwd.reverse(),
        decreases v.len(),
    {
        let ghost bo = v@.map_values(|c: String| c@);
        let ghost br = res@.map_values(|c: String| c@);
        let last = v.pop().unwrap();
        res.push(last);
        proof {
            assert(bo =~= v@.map_values(|c: String| c@).push(last@));
            assert(res@.map_values(|c: String| c@) =~= br.push(last@));
            assert(bo.reverse() =~= seq![last@] + v@.map_values(|c: String| c@).reverse());
            assert(res@.map_values(|c: String| c@) + v@.map_values(|c: String| c@).reverse() =~= br + bo.reverse());
        }
    }
    assert(v@.map_values(|c: String| c@).reverse() =~= Seq::<Seq<char>>::empty());
    assert(res@.map_values(|c: String| c@) =~= fwd.reverse());
    res
}

fn reverse_pairs(v: Vec<(String, String)>) -> (r: Vec<(String, String)>)
    ensures
        params_view(r@) == params_view(v@).reverse(),
{
    let mut v = v;
    let ghost fwd = params_view(v@);
    let mut res: Vec<(String, String)> = Vec::new();
    assert(params_view(res@) + fwd.reverse() =~= fwd.reverse());
    while v.len() > 0
        invariant
            params_view(res@) + params_view(v@).reverse() == fwd.reverse(),
        decreases v.len(),
    {
        let ghost bo = params_view(v@);
        let ghost br = params_view(res@);
        let last = v.pop().unwrap();
        proof {
            assert(bo =~= params_view(v@).push((last.0@, last.1@)));
        }
        res.push(last);
        proof {
            assert(params_view(res@) =~= br.push((last.0@, last.1@)));
            assert(bo.reverse() =~= seq![(last.0@, last.1@)] + params_view(v@).reverse());
            assert(params_view(res@) + params_view(v@).reverse() =~= br + bo.reverse());
        }
    }
    assert(params_view(v@).reverse() =~= Seq::<(Seq<char>, Seq<char>)>::empty());
    assert(params_view(res@) =~= fwd.reverse());
    res
}

/// What an attempt page holds (see [`spec_attempt_page`]).
pub fn attempt_page(body: &str) -> (r: Option<AttemptPage>)
    ensures
        match r {
            Some(p) => spec_attempt_page(body@) == Some(attempt_page_view(p)),
            None => spec_attempt_page(body@) is None,
        },
{
    let names = form_names();
    let mut vnames: Vec<&'static str> = Vec::new();
    vnames.push("value");
    assert(names_view(vnames@) =~= seq!["value"@]);
    let has_q = has_questions(body);
    let forms = select_nested(body, "form", "input", names.as_slice());
    let unnamed = select_nested(body, "form", "input[name='']", names.as_slice());
    let next = select(body, "input[name=nextpage][value]", vnames.as_slice());
    let (has_q, forms, unnamed, next) = match (has_q, forms, unnamed, next) {
        (Some(a), Some(b), Some(c), Some(d)) => (a, b, c, d),
        _ => return None,
    };
    let k = match process_form_index_exec(&forms) {
        None => return Some(AttemptPage::NoForm { has_questions: has_q }),
        Some(k) => k,
    };
    if !has_q {
        return Some(AttemptPage::NoQuestions);
    }
    let action = attr_or_empty_exec(&forms[k].0, 1);
    let (choices, hidden) = classify_inputs(&forms[k].1);
    let unlabeled = if k < unnamed.len() && unnamed[k].1.len() > 0 {
        let v = attr_or_empty_exec(&unnamed[k].1[0], 4);
        if !v.as_str().is_empty() { Some(v) } else { None }
    } else {
        None
    };
    let more = match first_value_exec(&next) {
        Some(v) => !str_eq(v.as_str(), "-1") && !v.as_str().is_empty(),
        None => false,
    };
    proof {
        assert(groups_view(forms@)[k as int].1 == nodes_view(forms@[k as int].1@));
        if k < unnamed@.len() && unnamed@[k as int].1@.len() > 0 {
            assert(groups_view(unnamed@)[k as int].1 == nodes_view(unnamed@[k as int].1@));
        }
    }
    Some(AttemptPage::Questions {
        form: AttemptForm { action, hidden, choices, unlabeled, more_pages: more },
    })
}

/// The choice numbers a reply picks: for a reply other than `0` or empty,
/// each comma-separated entry that, trimmed, is a number from 1 to `n`,
/// made an index from 0.
pub open spec fn spec_selection(reply: Seq<char>, n: nat) -> Seq<nat> {
    if reply == "0"@ || reply.len() == 0 {
        seq![]
    } else {
        picked(split(reply, ','), n)
    }
}

pub open spec fn picked(parts: Seq<Seq<char>>, n: nat) -> Seq<nat>
    decreases parts.len(),
{
    if parts.len() == 0 {
        seq![]
    } else {
        let rest = picked(parts.skip(1), n);
        match parse_usize(trim(parts[0])) {
            Some(idx) => if 0 < idx && idx <= n { seq![(idx - 1) as nat] + rest } else { rest },
            None => rest,
        }
    }
}

/// See [`spec_selection`].
pub fn selection(reply: &str, n: usize) -> (r: Vec<usize>)
    ensures
        r@.map_values(|i: usize| i as nat) == spec_selection(reply@, n as nat),
{
    let mut out: Vec<usize> = Vec::new();
    proof {
        reveal_strlit("0");
    }
    if str_eq(reply, "0") || reply.is_empty() {
        assert(out@.map_values(|i: usize| i as nat) =~= Seq::<nat>::empty());
        return out;
    }
    let rc = chars_of(reply);
    let parts = split_exec(rc.as_slice(), ',');
    let ghost ps = parts@.map_values(|p: Vec<char>| p@);
    assert(ps =~= split(reply@, ','));
    let mut i: usize = parts.len();
    assert(ps.skip(i as int) =~= Seq::<Seq<char>>::empty());
    assert(out@.map_values(|i: usize| i as nat) =~= Seq::<nat>::empty());
    while i > 0
        invariant
            i <= parts@.len(),
            ps == parts@.map_values(|p: Vec<char>| p@),
            out@.map_values(|i: usize| i as nat).reverse() == picked(ps.skip(i as int), n as nat),
        decreases i,
    {
        proof {
            let t = ps.skip(i - 1);
            assert(t[0] == ps[i - 1]);
            assert(t.skip(1) =~= ps.skip(i as int));
        }
        let t = trim_exec(parts[i - 1].as_slice());
        match parse_usize_exec(t.as_slice()) {
            Some(idx) => {
                if 0 < idx && idx <= n {
                    let ghost before = out@.map_values(|i: usize| i as nat);
                    out.push(idx - 1);
                    proof {
                        assert(out@.map_values(|i: usize| i as nat) =~= before.push((idx - 1) as nat));
                        assert(before.push((idx - 1) as nat).reverse() =~= seq![(idx - 1) as nat] + before.reverse());
                    }
                }
            },
            None => {},
        }
        i = i - 1;
    }
    let ghost fwd = out@.map_values(|i: usize| i as nat);
    let mut res: Vec<usize> = Vec::new();
    assert(res@.map_values(|i: usize| i as nat) + fwd.reverse() =~= fwd.reverse());
    while out.len() > 0
        invariant
            res@.map_values(|i: usize| i as nat) + out@.map_values(|i: usize| i as nat).reverse() == fwd.reverse(),
        decreases out.len(),
    {
        let ghost bo = out@.map_values(|i: usize| i as nat);
        let ghost br = res@.map_values(|i: usize| i as nat);
        let last = out.pop().unwrap();
        res.push(last);
        proof {
            assert(bo =~= out@.map_values(|i: usize| i as nat).push(last as nat));
            assert(res@.map_values(|i: usize| i as nat) =~= br.push(last as nat));
            assert(bo.reverse() =~= seq![last as nat] + out@.map_values(|i: usize| i as nat).reverse());
            assert(res@.map_values(|i: usize| i as nat) + out@.map_values(|i: usize| i as nat).reverse() =~= br + bo.reverse());
        }
    }
    proof {
        assert(out@.map_values(|i: usize| i as nat).reverse() =~= Seq::<nat>::empty());
        assert(res@.map_values(|i: usize| i as nat) =~= fwd.reverse());
        assert(ps.skip(0) =~= ps);
        assert(fwd.reverse().reverse() =~= fwd);
    }
    res
}

/// Every choice a reply picks is one of the `n` choices offered.
pub proof fn lemma_selection_in_range(reply: Seq<char>, n: nat)
    ensures
        forall|i: int| 0 <= i < spec_selection(reply, n).len() ==> spec_selection(reply, n)[i] < n,
{
    if !(reply == "0"@ || reply.len() == 0) {
        lemma_picked_in_range(split(reply, ','), n);
    }
}

proof fn lemma_picked_in_range(parts: Seq<Seq<char>>, n: nat)
    ensures
        forall|i: int| 0 <= i < picked(parts, n).len() ==> picked(parts, n)[i] < n,
    decreases parts.len(),
{
    if parts.len() > 0 {
        lemma_picked_in_range(parts.skip(1), n);
        let rest = picked(parts.skip(1), n);
        assert forall|i: int| 0 <= i < picked(parts, n).len() implies picked(parts, n)[i] < n by {
            match parse_usize(trim(parts[0])) {
                Some(idx) => if 0 < idx && idx <= n {
                    if i > 0 {
                        assert(picked(parts, n)[i] == rest[i - 1]);
                    }
                },
                None => {},
            }
        }
    }
}

/// The button that sends a page of answers: to the next page, or to finish.
pub open spec fn next_button(more: bool) -> Seq<char> {
    if more {
        "\u{6b21}\u{306e}\u{30da}\u{30fc}\u{30b8}"@
    } else {
        "\u{30c6}\u{30b9}\u{30c8}\u{3092}\u{7d42}\u{4e86}\u{3059}\u{308b} ..."@
    }
}

/// The answers sent for a page: the hidden pairs, the button, the form's
/// marker where the page has one, then each picked choice set to `1`.
pub open spec fn spec_answer_params(
    f: (Seq<char>, Seq<(Seq<char>, Seq<char>)>, Seq<Seq<char>>, Option<Seq<char>>, bool),
    picks: Seq<nat>,
) -> Seq<(Seq<char>, Seq<char>)> {
    f.1 + seq![("next"@, next_button(f.4))] + match f.3 {
        Some(v) => seq![("_qf__mod_quiz_attempt_form"@, v)],
        None => seq![],
    } + Seq::new(picks.len(), |i: int| (f.2[picks[i] as int], "1"@))
}

/// The answers to send for a page, given the reply picking choices.
pub fn answer_params(form: &AttemptForm, reply: &str) -> (r: Vec<(String, String)>)
    ensures
        params_view(r@) == spec_answer_params(
            attempt_form_view(*form),
            spec_selection(reply@, form.choices@.len() as nat),
        ),
{
    let picks = selection(reply, form.choices.len());
    proof {
        lemma_selection_in_range(reply@, form.choices@.len() as nat);
    }
    let ghost pv = picks@.map_values(|i: usize| i as nat);
    let mut out: Vec<(String, String)> = Vec::new();
    let mut h: usize = 0;
    while h < form.hidden.len()
        invariant
            h <= form.hidden@.len(),
            params_view(out@) == params_view(form.hidden@).take(h as int),
        decreases form.hidden.len() - h,
    {
        let ghost before = params_view(out@);
        out.push((form.hidden[h].0.clone(), form.hidden[h].1.clone()));
        proof {
            assert(params_view(out@) =~= before.push(params_view(form.hidden@)[h as int]));
            assert(params_view(form.hidden@).take(h + 1) =~= params_view(form.hidden@).take(h as int).push(
                params_view(form.hidden@)[h as int],
            ));
        }
        h = h + 1;
    }
    assert(params_view(form.hidden@).take(form.hidden@.len() as int) =~= params_view(form.hidden@));
    let button = if form.more_pages {
        "\u{6b21}\u{306e}\u{30da}\u{30fc}\u{30b8}".to_owned()
    } else {
        "\u{30c6}\u{30b9}\u{30c8}\u{3092}\u{7d42}\u{4e86}\u{3059}\u{308b} ...".to_owned()
    };
    let ghost base = params_view(out@);
    out.push(("next".to_owned(), button));
    match &form.unlabeled {
        Some(v) => {
            out.push(("_qf__mod_quiz_attempt_form".to_owned(), v.clone()));
        },
        None => {},
    }
    let ghost head = params_view(out@);
    let ghost choices = form.choices@.map_values(|c: String| c@);
    let mut j: usize = 0;
    while j < picks.len()
        invariant
            j <= picks@.len(),
            pv == picks@.map_values(|i: usize| i as nat),
            forall|i: int| 0 <= i < pv.len() ==> pv[i] < form.choices@.len(),
            choices == form.choices@.map_values(|c: String| c@),
            params_view(out@) == head + Seq::new(j as nat, |i: int| (choices[pv[i] as int], "1"@)),
        decreases picks.len() - j,
    {
        let idx = picks[j];
        assert(pv[j as int] == idx as nat);
        let ghost before = params_view(out@);
        let cname = form.choices[idx].clone();
        let one = "1".to_owned();
        assert(cname@ == choices[pv[j as int] as int]);
        out.push((cname, one));
        proof {
            assert(params_view(out@) =~= before.push((cname@, one@)));
            assert(params_view(out@) =~= head + Seq::new((j + 1) as nat, |i: int| (choices[pv[i] as int], "1"@)));
        }
        j = j + 1;
    }
    proof {
        assert(params_view(out@) =~= spec_answer_params(
            attempt_form_view(*form),
            pv,
        ));
    }
    out
}

// ---------------------------------------------------------------------------
// Finishing
// ---------------------------------------------------------------------------

/// The pairs the summary page sends to finish the attempt: every check box
/// or radio button with value `1` set to `1`, and every named hidden input
/// but `slots` with its value.
pub open spec fn finish_pairs(inputs: Seq<NodeView>) -> Seq<(Seq<char>, Seq<char>)>
    decreases inputs.len(),
{
    if inputs.len() == 0 {
        seq![]
    } else {
        let n = inputs[0];
        let rest = finish_pairs(inputs.skip(1));
        let t = input_type(n);
        if t == "checkbox"@ || t == "radio"@ {
            if input_value(n) == "1"@ {
                seq![(input_name(n), "1"@)] + rest
            } else {
                rest
            }
        } else if t == "hidden"@ && input_name(n).len() > 0 && input_name(n) != "slots"@ {
            seq![(input_name(n), input_value(n))] + rest
        } else {
            rest
        }
    }
}

/// The request that finishes the attempt from the summary page: the action
/// of its answer form and the pairs to send; `Some(None)` where the page has
/// no such form; `None` where a selector is refused.
pub open spec fn spec_finish_request(body: Seq<char>) -> Option<Option<(Seq<char>, Seq<(Seq<char>, Seq<char>)>)>> {
    match spec_select_nested(body, "form"@, "input"@, form_names_view()) {
        None => None,
        Some(forms) => match process_form_index(forms) {
            None => Some(None),
            Some(k) => Some(Some((form_action(forms[k].0), finish_pairs(forms[k].1)))),
        },
    }
}

fn finish_pairs_exec(inputs: &Vec<Node>) -> (r: Vec<(String, String)>)
    ensures
        params_view(r@) == finish_pairs(nodes_view(inputs@)),
{
    let ghost ns = nodes_view(inputs@);
    let mut out: Vec<(String, String)> = Vec::new();
    let mut i: usize = inputs.len();
    assert(ns.skip(i as int) =~= Seq::<NodeView>::empty());
    assert(params_view(out@) =~= Seq::<(Seq<char>, Seq<char>)>::empty());
    while i > 0
        invariant
            i <= inputs@.len(),
            ns == nodes_view(inputs@),
            params_view(out@).reverse() == finish_pairs(ns.skip(i as int)),
        decreases i,
    {
        let n = &inputs[i - 1];
        proof {
            let t = ns.skip(i - 1);
            assert(t[0] == ns[i - 1]);
            assert(t.skip(1) =~= ns.skip(i as int));
            assert(ns[i - 1] == n@);
        }
        let name = attr_or_empty_exec(n, 2);
        let value = attr_or_empty_exec(n, 4);
        let t = input_type_exec(n);
        let pair: Option<(String, String)> = if str_eq(t.as_str(), "checkbox") || str_eq(t.as_str(), "radio") {
            if str_eq(value.as_str(), "1") {
                Some((name, "1".to_owned()))
            } else {
                None
            }
        } else if str_eq(t.as_str(), "hidden") && !name.as_str().is_empty() && !str_eq(name.as_str(), "slots") {
            Some((name, value))
        } else {
            None
        };
        match pair {
            Some(p) => {
                let ghost before = params_view(out@);
                let ghost pv = (p.0@, p.1@);
                out.push(p);
                proof {
                    assert(params_view(out@) =~= before.push(pv));
                    assert(before.push(pv).reverse() =~= seq![pv] + before.reverse());
                }
            },
            None => {},
        }
        i = i - 1;
    }
    proof {
        assert(ns.skip(0) =~= ns);
    }
    reverse_pairs(out)
}

/// See [`spec_finish_request`].
pub fn finish_request(body: &str) -> (r: Option<Option<(String, Vec<(String, String)>)>>)
    ensures
        match r {
            Some(Some(p)) => spec_finish_request(body@) == Some(Some((p.0@, params_view(p.1@)))),
            Some(None) => spec_finish_request(body@) == Some(None::<(Seq<char>, Seq<(Seq<char>, Seq<char>)>)>),
            None => spec_finish_request(body@) is None,
        },
{
    let names = form_names();
    let forms = match select_nested(body, "form", "input", names.as_slice()) {
        Some(f) => f,
        None => return None,
    };
    match process_form_index_exec(&forms) {
        None => Some(None),
        Some(k) => {
            let action = attr_or_empty_exec(&forms[k].0, 1);
            let pairs = finish_pairs_exec(&forms[k].1);
            assert(groups_view(forms@)[k as int].1 == nodes_view(forms@[k as int].1@));
            Some(Some((action, pairs)))
        },
    }
}

/// The text of the page's first `title`, or the empty text; `None` where the
/// selector is refused.
pub open spec fn spec_page_title(body: Seq<char>) -> Option<Seq<char>> {
    match spec_select(body, "title"@, seq![]) {
        None => None,
        Some(ns) => Some(if ns.len() > 0 { ns[0].text } else { seq![] }),
    }
}

/// See [`spec_page_title`].
pub fn page_title(body: &str) -> (r: Option<String>)
    ensures
        opt_str_view(r) == spec_page_title(body@),
{
    let names: Vec<&'static str> = Vec::new();
    assert(names_view(names@) =~= Seq::<Seq<char>>::empty());
    match select(body, "title", names.as_slice()) {
        None => None,
        Some(ns) => Some(if ns.len() > 0 { ns[0].text.clone() } else { String::new() }),
    }
}

/// A result title that names a review page.
pub open spec fn spec_is_review_title(title: Seq<char>) -> bool {
    contains(title, "\u{30ec}\u{30d3}\u{30e5}\u{30fc}"@) || contains(title, "review"@)
}

/// See [`spec_is_review_title`].
pub fn is_review_title(title: &str) -> (b: bool)
    ensures
        b == spec_is_review_title(title@),
{
    str_contains(title, "\u{30ec}\u{30d3}\u{30e5}\u{30fc}") || str_contains(title, "review")
}


/// The quiz page.
pub fn quiz_url(id: u32) -> (r: String)
    ensures
        r@ == crate::api::spec_moodle_url_with("/mod/quiz/view.php?id="@, id, ""@),
{
    crate::api::moodle_url_with("/mod/quiz/view.php?id=", id, "")
}

/// The address that starts an attempt.
pub fn start_attempt_url() -> (r: String)
    ensures
        r@ == crate::api::spec_moodle_url("/mod/quiz/startattempt.php"@),
{
    crate::api::moodle_url("/mod/quiz/startattempt.php")
}

/// The fields that start an attempt.
pub open spec fn spec_start_fields(cmid: u32, sesskey: Seq<char>) -> Seq<(Seq<char>, Seq<char>)> {
    seq![("cmid"@, decimal(cmid as nat)), ("sesskey"@, sesskey)]
}

/// See [`spec_start_fields`].
pub fn start_fields(cmid: u32, sesskey: &str) -> (r: Vec<(String, String)>)
    ensures
        params_view(r@) == spec_start_fields(cmid, sesskey@),
{
    let d = decimal_exec(cmid as u128);
    let ds = string_of(d.as_slice());
    let mut v: Vec<(String, String)> = Vec::new();
    v.push(crate::assignment::field("cmid", ds.as_str()));
    v.push(crate::assignment::field("sesskey", sesskey));
    assert(params_view(v@) =~= spec_start_fields(cmid, sesskey@));
    v
}

} // verus!
