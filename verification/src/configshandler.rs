//! Templates, placeholders and the configuration, with the lookups and the
//! rendering that work on them.

use vstd::prelude::*;
use crate::numbers::{decimal_seq, lemma_parse_decimal, parse_u32, parse_u32_seq, push_decimal};
use crate::text::{
    lemma_replace_absent, occurs_at, chars_of, contains_chars, contains_seq, replace_chars, replace_seq, string_of,
};

verus! {

/// The database engines a configuration can point at.
#[derive(Clone, Copy, Debug, PartialEq, Eq, Structural)]
pub enum DBTypes {
    Access,
    SQLite,
    NoDatabase,
}

/// What a template is for.
#[derive(Clone, Copy, Debug, PartialEq, Eq, Structural)]
pub enum TemplateTypes {
    Untyped,
    NewRes,
    UpdateRes,
    CancelRes,
}

/// A `{{name}}` slot of a template, with the value that fills it
/// (`truevalue`) or, while that is empty, a sample (`example`).
#[derive(Debug)]
pub struct Placeholder {
    pub name: String,
    pub truevalue: String,
    pub example: String,
}

impl Clone for Placeholder {
    fn clone(&self) -> (r: Self)
        ensures
            r == *self,
    {
        Placeholder {
            name: self.name.clone(),
            truevalue: self.truevalue.clone(),
            example: self.example.clone(),
        }
    }
}

/// The application's settings.
#[derive(Debug)]
pub struct Config {
    pub templates_file_path: String,
    pub new_reservation_name: String,
    pub update_reservation_name: String,
    pub delete_reservation_name: String,
    pub custom_templates_name: Vec<String>,
    pub placeholders: Vec<Placeholder>,
    pub db_type: DBTypes,
    pub db_path: Option<String>,
}

/// An e-mail template: a subject and a body with `{{name}}` slots.
#[derive(Debug)]
pub struct Template {
    pub ttype: TemplateTypes,
    pub label: String,
    pub subject: String,
    pub body: String,
    pub placeholders: Vec<Placeholder>,
}

/// A template as plain values: its type, the texts of its label, subject
/// and body, and its placeholders in order.
pub struct TemplateView {
    pub ttype: TemplateTypes,
    pub label: Seq<char>,
    pub subject: Seq<char>,
    pub body: Seq<char>,
    pub placeholders: Seq<Placeholder>,
}

impl View for Template {
    type V = TemplateView;

    open spec fn view(&self) -> TemplateView {
        TemplateView {
            ttype: self.ttype,
            label: self.label@,
            subject: self.subject@,
            body: self.body@,
            placeholders: self.placeholders@,
        }
    }
}

/// The views of a sequence of templates.
pub open spec fn templates_view(ts: Seq<Template>) -> Seq<TemplateView> {
    ts.map_values(|t: Template| t@)
}

impl Clone for Template {
    fn clone(&self) -> (r: Self)
        ensures
            r@ == self@,
    {
        let placeholders = self.placeholders.clone();
        assert(placeholders@ =~= self.placeholders@);
        Template {
            ttype: self.ttype,
            label: self.label.clone(),
            subject: self.subject.clone(),
            body: self.body.clone(),
            placeholders,
        }
    }
}

/// The three templates used for new, updated and cancelled reservations.
#[derive(Debug)]
pub struct DefaultTemplate {
    pub new_reservation: Template,
    pub update_reservation: Template,
    pub delete_reservation: Template,
}

/// The contents of the templates file.
#[derive(Debug)]
pub struct TemplateConfigs {
    pub templates: Vec<Template>,
}

/// A template with its slots filled.
#[derive(Debug)]
pub struct RenderedEmail {
    pub subject: String,
    pub body: String,
}

impl Template {
    /// The empty, untyped template.
    pub fn none() -> (r: Self)
        ensures
            r.ttype == TemplateTypes::Untyped,
            r.label@ == Seq::<char>::empty(),
            r.subject@ == Seq::<char>::empty(),
            r.body@ == Seq::<char>::empty(),
            r.placeholders@ == Seq::<Placeholder>::empty(),
    {
        Template {
            ttype: TemplateTypes::Untyped,
            label: String::new(),
            subject: String::new(),
            body: String::new(),
            placeholders: Vec::new(),
        }
    }

    pub fn new(
        ttype: TemplateTypes,
        label: String,
        subject: String,
        body: String,
        placeholders: Vec<Placeholder>,
    ) -> (r: Self)
        ensures
            r.ttype == ttype,
            r.label == label,
            r.subject == subject,
            r.body == body,
            r.placeholders == placeholders,
    {
        Template { ttype, label, subject, body, placeholders }
    }
}

impl Placeholder {
    pub fn new(name: String, truevalue: String, example: String) -> (r: Self)
        ensures
            r.name == name,
            r.truevalue == truevalue,
            r.example == example,
    {
        Placeholder { name, truevalue, example }
    }
}

/// Whether two character vectors hold the same text.
pub fn same_chars(a: &Vec<char>, b: &Vec<char>) -> (r: bool)
    ensures
        r == (a@ == b@),
{
    if a.len() != b.len() {
        return false;
    }
    let mut i: usize = 0;
    while i < a.len()
        invariant
            a@.len() == b@.len(),
            i <= a@.len(),
            forall|j: int| 0 <= j < i ==> a@[j] == b@[j],
        decreases a@.len() - i,
    {
        if a[i] != b[i] {
            return false;
        }
        i = i + 1;
    }
    assert(a@ =~= b@);
    true
}

/// Some template is labelled `label`.
pub open spec fn has_label(ts: Seq<Template>, label: Seq<char>) -> bool {
    exists|i: int| 0 <= i < ts.len() && ts[i].label@ == label
}

/// `v` is the view of the first template labelled `label`.
pub open spec fn is_first_with_label(ts: Seq<Template>, label: Seq<char>, v: TemplateView) -> bool {
    exists|i: int|
        0 <= i < ts.len() && ts[i]@ == v && ts[i].label@ == label && forall|j: int|
            0 <= j < i ==> ts[j].label@ != label
}

/// The first template whose label is exactly `label`.
pub fn find_template_by_label<'a>(templates: &'a Vec<Template>, label: &str) -> (r: Option<
    &'a Template,
>)
    ensures
        r is None <==> !has_label(templates@, label@),
        r matches Some(t) ==> is_first_with_label(templates@, label@, t@),
{
    let wanted = chars_of(label);
    let mut i: usize = 0;
    while i < templates.len()
        invariant
            i <= templates@.len(),
            wanted@ == label@,
            forall|j: int| 0 <= j < i ==> templates@[j].label@ != label@,
        decreases templates@.len() - i,
    {
        let t = &templates[i];
        let have = chars_of(t.label.as_str());
        if same_chars(&have, &wanted) {
            return Some(t);
        }
        i = i + 1;
    }
    None
}


/// The text `{{name}}` that stands for a placeholder in a template.
pub open spec fn placeholder_pattern(name: Seq<char>) -> Seq<char> {
    seq!['{', '{'] + name + seq!['}', '}']
}

/// What a placeholder is filled with: its value, or its sample while the
/// value is empty.
pub open spec fn placeholder_value(p: Placeholder) -> Seq<char> {
    if p.truevalue@.len() > 0 {
        p.truevalue@
    } else {
        p.example@
    }
}

/// `text` after replacing, for each placeholder in order, every `{{name}}`
/// with its value.
pub open spec fn fill_placeholders(text: Seq<char>, ps: Seq<Placeholder>) -> Seq<char>
    decreases ps.len(),
{
    if ps.len() == 0 {
        text
    } else {
        replace_seq(
            fill_placeholders(text, ps.drop_last()),
            placeholder_pattern(ps.last().name@),
            placeholder_value(ps.last()),
        )
    }
}

/// The characters of `{{name}}`.
fn pattern_chars(name: &str) -> (r: Vec<char>)
    ensures
        r@ == placeholder_pattern(name@),
        r@ == seq!['{', '{'] + name@ + seq!['}', '}'],
{
    let mut r: Vec<char> = Vec::new();
    r.push('{');
    r.push('{');
    let n = chars_of(name);
    let mut i: usize = 0;
    while i < n.len()
        invariant
            i <= n@.len(),
            r@ == seq!['{', '{'] + n@.take(i as int),
        decreases n@.len() - i,
    {
        r.push(n[i]);
        i = i + 1;
        assert(r@ =~= seq!['{', '{'] + n@.take(i as int));
    }
    r.push('}');
    r.push('}');
    assert(n@.take(n@.len() as int) =~= n@);
    assert(r@ =~= placeholder_pattern(name@));
    r
}

/// Fills one placeholder into both texts.
fn fill_one(subject: &Vec<char>, body: &Vec<char>, p: &Placeholder) -> (r: (Vec<char>, Vec<char>))
    ensures
        r.0@ == replace_seq(subject@, placeholder_pattern(p.name@), placeholder_value(*p)),
        r.1@ == replace_seq(body@, placeholder_pattern(p.name@), placeholder_value(*p)),
{
    let pattern = pattern_chars(p.name.as_str());
    let value = if p.truevalue.as_str().unicode_len() > 0 {
        chars_of(p.truevalue.as_str())
    } else {
        chars_of(p.example.as_str())
    };
    (replace_chars(subject, &pattern, &value), replace_chars(body, &pattern, &value))
}

/// Fills the template's own placeholders, then the extra ones, into its
/// subject and body.
pub fn render_template(template: &Template, extra_placeholders: &[Placeholder]) -> (r:
    RenderedEmail)
    ensures
        r.subject@ == fill_placeholders(
            template.subject@,
            template.placeholders@ + extra_placeholders@,
        ),
        r.body@ == fill_placeholders(template.body@, template.placeholders@ + extra_placeholders@),
{
    let ghost all = template.placeholders@ + extra_placeholders@;
    let mut subject = chars_of(template.subject.as_str());
    let mut body = chars_of(template.body.as_str());
    let n1 = template.placeholders.len();
    let mut i: usize = 0;
    while i < n1
        invariant
            n1 == template.placeholders@.len(),
            all == template.placeholders@ + extra_placeholders@,
            i <= n1,
            subject@ == fill_placeholders(template.subject@, all.take(i as int)),
            body@ == fill_placeholders(template.body@, all.take(i as int)),
        decreases n1 - i,
    {
        let ghost before = all.take(i as int);
        assert(all.take(i + 1).drop_last() =~= before);
        assert(all.take(i + 1).last() == template.placeholders@[i as int]);
        let (s2, b2) = fill_one(&subject, &body, &template.placeholders[i]);
        subject = s2;
        body = b2;
        i = i + 1;
    }
    let n2 = extra_placeholders.len();
    let mut k: usize = 0;
    while k < n2
        invariant
            n1 == template.placeholders@.len(),
            n2 == extra_placeholders@.len(),
            all == template.placeholders@ + extra_placeholders@,
            k <= n2,
            subject@ == fill_placeholders(template.subject@, all.take(n1 + k)),
            body@ == fill_placeholders(template.body@, all.take(n1 + k)),
        decreases n2 - k,
    {
        let ghost before = all.take(n1 + k);
        assert(all.take(n1 + k + 1).drop_last() =~= before);
        assert(all.take(n1 + k + 1).last() == extra_placeholders@[k as int]);
        let (s2, b2) = fill_one(&subject, &body, &extra_placeholders[k]);
        subject = s2;
        body = b2;
        k = k + 1;
    }
    assert(all.take(n1 + n2) =~= all);
    RenderedEmail { subject: string_of(&subject), body: string_of(&body) }
}


/// What `str::to_lowercase` makes of a text (Unicode lower case, which may
/// change the length of the text).
pub uninterp spec fn lowercase(s: Seq<char>) -> Seq<char>;

/// Calls `str::to_lowercase`; the result is the named `lowercase` of the
/// argument, and nothing more is stated of it.
#[verifier::external_body]
fn to_lowercase(s: &str) -> (r: String)
    ensures
        r@ == lowercase(s@),
{
    s.to_lowercase()
}

/// Case-insensitive search: the lower-cased label contains the lower-cased
/// query.
pub open spec fn label_matches(t: Template, query: Seq<char>) -> bool {
    contains_seq(lowercase(t.label@), lowercase(query))
}

/// The views of the templates whose labels match `query`, in order.
pub open spec fn matching_templates(ts: Seq<Template>, query: Seq<char>) -> Seq<TemplateView>
    decreases ts.len(),
{
    if ts.len() == 0 {
        Seq::empty()
    } else {
        let rest = matching_templates(ts.drop_last(), query);
        if label_matches(ts.last(), query) {
            rest.push(ts.last()@)
        } else {
            rest
        }
    }
}

/// The views behind a sequence of template references.
pub open spec fn template_refs_view(v: Seq<&Template>) -> Seq<TemplateView> {
    v.map_values(|t: &Template| t@)
}

/// The views of the templates whose lower-cased label, given at the same
/// index of `lowered`, contains `query`, in order.
pub open spec fn matching_lowered(ts: Seq<Template>, lowered: Seq<Seq<char>>, query: Seq<char>) -> Seq<
    TemplateView,
>
    decreases ts.len(),
{
    if ts.len() == 0 {
        Seq::empty()
    } else {
        let rest = matching_lowered(ts.drop_last(), lowered, query);
        if contains_seq(lowered[ts.len() - 1], query) {
            rest.push(ts.last()@)
        } else {
            rest
        }
    }
}

/// The texts of some strings.
pub open spec fn texts_view(v: Seq<String>) -> Seq<Seq<char>> {
    v.map_values(|s: String| s@)
}

/// With the lower-cased labels (at least one per template) and query that
/// `str::to_lowercase` gives, the matches are those of the case-insensitive
/// search.
proof fn lemma_matching_lowered_general(ts: Seq<Template>, lowered: Seq<Seq<char>>, query: Seq<char>)
    requires
        lowered.len() >= ts.len(),
        forall|i: int| 0 <= i < ts.len() ==> lowered[i] == lowercase(#[trigger] ts[i].label@),
    ensures
        matching_lowered(ts, lowered, lowercase(query)) == matching_templates(ts, query),
    decreases ts.len(),
{
    if ts.len() > 0 {
        let front = ts.drop_last();
        assert forall|i: int| 0 <= i < front.len() implies lowered[i] == lowercase(
            #[trigger] front[i].label@,
        ) by {
            assert(front[i] == ts[i]);
        }
        lemma_matching_lowered_general(front, lowered, query);
        assert(lowered[ts.len() - 1] == lowercase(ts[ts.len() - 1].label@));
    }
}

/// `res` is, in their order, the views of exactly those templates of `ts`
/// whose index satisfies `keep`.
pub open spec fn selects_in_order(
    res: Seq<TemplateView>,
    ts: Seq<Template>,
    keep: spec_fn(int) -> bool,
) -> bool {
    exists|idx: Seq<int>| is_selection_index(idx, res, ts, keep)
}

/// `idx` gives, for each element of `res`, the index of the template it is
/// the view of; the indices rise, each satisfies `keep`, and every index
/// that satisfies `keep` is among them.
pub open spec fn is_selection_index(
    idx: Seq<int>,
    res: Seq<TemplateView>,
    ts: Seq<Template>,
    keep: spec_fn(int) -> bool,
) -> bool {
    &&& idx.len() == res.len()
    &&& forall|k: int|
        0 <= k < idx.len() ==> 0 <= #[trigger] idx[k] < ts.len() && res[k] == ts[idx[k]]@ && keep(
            idx[k],
        )
    &&& forall|k1: int, k2: int| 0 <= k1 < k2 < idx.len() ==> idx[k1] < idx[k2]
    &&& forall|i: int|
        0 <= i < ts.len() && #[trigger] keep(i) ==> exists|k: int| 0 <= k < idx.len() && #[trigger] idx[k] == i
}

/// The case-insensitive search selects, in order, exactly the templates whose
/// lower-cased label contains the lower-cased query.
pub proof fn lemma_matching_templates_selects(ts: Seq<Template>, query: Seq<char>)
    ensures
        selects_in_order(
            matching_templates(ts, query),
            ts,
            |i: int| contains_seq(lowercase(ts[i].label@), lowercase(query)),
        ),
{
    lemma_matching_index(ts, query);
}

/// The indices of the templates that match `query`, in order.
pub open spec fn matching_index(ts: Seq<Template>, query: Seq<char>) -> Seq<int>
    decreases ts.len(),
{
    if ts.len() == 0 {
        Seq::empty()
    } else {
        let rest = matching_index(ts.drop_last(), query);
        if label_matches(ts.last(), query) {
            rest.push(ts.len() - 1)
        } else {
            rest
        }
    }
}

proof fn lemma_matching_index(ts: Seq<Template>, query: Seq<char>)
    ensures
        is_selection_index(
            matching_index(ts, query),
            matching_templates(ts, query),
            ts,
            |i: int| contains_seq(lowercase(ts[i].label@), lowercase(query)),
        ),
    decreases ts.len(),
{
    let keep = |i: int| contains_seq(lowercase(ts[i].label@), lowercase(query));
    if ts.len() > 0 {
        let front = ts.drop_last();
        let fkeep = |i: int| contains_seq(lowercase(front[i].label@), lowercase(query));
        lemma_matching_index(front, query);
        let fidx = matching_index(front, query);
        let fres = matching_templates(front, query);
        let idx = matching_index(ts, query);
        let res = matching_templates(ts, query);
        let last = ts.len() - 1;
        assert forall|k: int| 0 <= k < fidx.len() implies 0 <= #[trigger] fidx[k] < last && fres[k]
            == ts[fidx[k]]@ && keep(fidx[k]) by {
            assert(front[fidx[k]] == ts[fidx[k]]);
            assert(fkeep(fidx[k]));
        }
        if label_matches(ts.last(), query) {
            assert(keep(last));
            assert forall|k: int| 0 <= k < idx.len() implies 0 <= #[trigger] idx[k] < ts.len()
                && res[k] == ts[idx[k]]@ && keep(idx[k]) by {
                if k < fidx.len() {
                    assert(idx[k] == fidx[k] && res[k] == fres[k]);
                }
            }
            assert forall|i: int| 0 <= i < ts.len() && #[trigger] keep(i) implies exists|k: int|
                0 <= k < idx.len() && #[trigger] idx[k] == i by {
                if i < last {
                    assert(front[i] == ts[i]);
                    assert(fkeep(i));
                    let k = choose|k: int| 0 <= k < fidx.len() && #[trigger] fidx[k] == i;
                    assert(idx[k] == i);
                } else {
                    assert(idx[idx.len() - 1] == i);
                }
            }
        } else {
            assert(!keep(last));
            assert forall|i: int| 0 <= i < ts.len() && #[trigger] keep(i) implies exists|k: int|
                0 <= k < idx.len() && #[trigger] idx[k] == i by {
                assert(i < last);
                assert(front[i] == ts[i]);
                assert(fkeep(i));
            }
        }
        assert(is_selection_index(idx, res, ts, keep));
    }
}

/// The templates whose lower-cased label (`lowered_labels`, one per template,
/// in the same order) contains the lower-cased query, in order; `None` when
/// there is none.
pub fn templates_matching_lowered<'a>(
    templates: &'a Vec<Template>,
    lowered_labels: &Vec<String>,
    lowered_query: &str,
) -> (r: Option<Vec<&'a Template>>)
    requires
        lowered_labels@.len() == templates@.len(),
    ensures
        r is None <==> matching_lowered(templates@, texts_view(lowered_labels@), lowered_query@).len()
            == 0,
        r matches Some(v) ==> template_refs_view(v@) == matching_lowered(
            templates@,
            texts_view(lowered_labels@),
            lowered_query@,
        ),
        r is None <==> forall|i: int|
            0 <= i < templates@.len() ==> !contains_seq(
                (#[trigger] lowered_labels@[i])@,
                lowered_query@,
            ),
        r matches Some(v) ==> selects_in_order(
            template_refs_view(v@),
            templates@,
            |i: int| contains_seq(lowered_labels@[i]@, lowered_query@),
        ),
{
    let ghost keep = |i: int| contains_seq(lowered_labels@[i]@, lowered_query@);
    let ghost mut idx: Seq<int> = Seq::empty();
    let ghost lowered = texts_view(lowered_labels@);
    let query = chars_of(lowered_query);
    let mut found: Vec<&'a Template> = Vec::new();
    let mut i: usize = 0;
    assert(templates@.take(0) =~= Seq::<Template>::empty());
    while i < templates.len()
        invariant
            i <= templates@.len(),
            lowered_labels@.len() == templates@.len(),
            lowered == texts_view(lowered_labels@),
            query@ == lowered_query@,
            template_refs_view(found@) == matching_lowered(
                templates@.take(i as int),
                lowered,
                lowered_query@,
            ),
            keep == (|j: int| contains_seq(lowered_labels@[j]@, lowered_query@)),
            idx.len() == found@.len(),
            forall|k: int|
                0 <= k < idx.len() ==> 0 <= #[trigger] idx[k] < i && template_refs_view(found@)[k]
                    == templates@[idx[k]]@ && keep(idx[k]),
            forall|k1: int, k2: int| 0 <= k1 < k2 < idx.len() ==> idx[k1] < idx[k2],
            forall|j: int|
                0 <= j < i && #[trigger] keep(j) ==> exists|k: int| 0 <= k < idx.len() && #[trigger] idx[k] == j,
        decreases templates@.len() - i,
    {
        let t = &templates[i];
        let hay = chars_of(lowered_labels[i].as_str());
        let ghost before = found@;
        let ghost before_idx = idx;
        assert(templates@.take(i + 1).drop_last() =~= templates@.take(i as int));
        assert(templates@.take(i + 1).last() == templates@[i as int]);
        assert(lowered[i as int] == lowered_labels@[i as int]@);
        if contains_chars(&hay, &query) {
            found.push(t);
            assert(template_refs_view(found@) =~= template_refs_view(before).push(t@));
            proof {
                idx = idx.push(i as int);
                assert(idx[idx.len() - 1] == i);
                assert forall|j: int| 0 <= j < i + 1 && #[trigger] keep(j) implies exists|k: int|
                    0 <= k < idx.len() && #[trigger] idx[k] == j by {
                    if j < i {
                        let k = choose|k: int| 0 <= k < before_idx.len() && before_idx[k] == j;
                        assert(idx[k] == j);
                    } else {
                        assert(idx[idx.len() - 1] == j);
                    }
                }
            }
        } else {
            assert(!keep(i as int));
        }
        i = i + 1;
    }
    assert(templates@.take(templates@.len() as int) =~= templates@);
    assert(is_selection_index(idx, template_refs_view(found@), templates@, keep));
    if found.len() == 0 {
        assert forall|j: int| 0 <= j < templates@.len() implies !contains_seq(
            (#[trigger] lowered_labels@[j])@,
            lowered_query@,
        ) by {
            if keep(j) {
                let k = choose|k: int| 0 <= k < idx.len() && idx[k] == j;
            }
        }
    } else {
        assert(template_refs_view(found@)[0] == templates@[idx[0]]@);
    }
    if found.len() == 0 {
        None
    } else {
        Some(found)
    }
}

/// All templates whose label contains `label`, ignoring case; `None` when
/// there is none.
pub fn find_templates_by_label<'a>(templates: &'a Vec<Template>, label: &str) -> (r: Option<
    Vec<&'a Template>,
>)
    ensures
        r is None <==> matching_templates(templates@, label@).len() == 0,
        r matches Some(v) ==> template_refs_view(v@) == matching_templates(templates@, label@),
        r is None <==> forall|i: int|
            0 <= i < templates@.len() ==> !contains_seq(
                lowercase(#[trigger] templates@[i].label@),
                lowercase(label@),
            ),
        r matches Some(v) ==> selects_in_order(
            template_refs_view(v@),
            templates@,
            |i: int| contains_seq(lowercase(templates@[i].label@), lowercase(label@)),
        ),
{
    let query = to_lowercase(label);
    let mut lowered: Vec<String> = Vec::new();
    let mut i: usize = 0;
    while i < templates.len()
        invariant
            i <= templates@.len(),
            lowered@.len() == i,
            forall|j: int| 0 <= j < i ==> (#[trigger] lowered@[j])@ == lowercase(templates@[j].label@),
        decreases templates@.len() - i,
    {
        lowered.push(to_lowercase(templates[i].label.as_str()));
        i = i + 1;
    }
    proof {
        let lv = texts_view(lowered@);
        assert forall|j: int| 0 <= j < templates@.len() implies lv[j] == lowercase(
            #[trigger] templates@[j].label@,
        ) by {
            assert(lv[j] == lowered@[j]@);
        }
        lemma_matching_lowered_general(templates@, lv, label@);
    }
    let r = templates_matching_lowered(templates, &lowered, query.as_str());
    proof {
        let keep_lowered = |i: int| contains_seq(lowered@[i]@, query@);
        let keep = |i: int| contains_seq(lowercase(templates@[i].label@), lowercase(label@));
        assert forall|i: int| 0 <= i < templates@.len() implies #[trigger] keep_lowered(i) == keep(i) by {
            assert(lowered@[i]@ == lowercase(templates@[i].label@));
        }
        if r is Some {
            let res = template_refs_view(r->0@);
            let idx = choose|idx: Seq<int>| is_selection_index(idx, res, templates@, keep_lowered);
            assert(is_selection_index(idx, res, templates@, keep)) by {
                assert forall|k: int| 0 <= k < idx.len() implies 0 <= #[trigger] idx[k] < templates@.len()
                    && res[k] == templates@[idx[k]]@ && keep(idx[k]) by {
                    assert(keep_lowered(idx[k]));
                }
                assert forall|i: int| 0 <= i < templates@.len() && #[trigger] keep(i) implies exists|k: int|
                    0 <= k < idx.len() && #[trigger] idx[k] == i by {
                    assert(keep_lowered(i));
                }
            }
        } else {
            assert forall|i: int| 0 <= i < templates@.len() implies !contains_seq(
                lowercase(#[trigger] templates@[i].label@),
                lowercase(label@),
            ) by {
                assert(!contains_seq((lowered@[i])@, query@));
                assert(lowered@[i]@ == lowercase(templates@[i].label@));
            }
        }
    }
    r
}

/// What `regex::Regex::new(pattern)` followed by `captures_iter(haystack)`
/// yields: `None` when the pattern does not compile, else, for each match in
/// order, the text of capture group `group` (`None` where the group took no
/// part in the match).
pub uninterp spec fn regex_group_captures(pattern: Seq<char>, haystack: Seq<char>, group: nat) -> Option<
    Seq<Option<Seq<char>>>,
>;

/// The texts of optional captured strings.
pub open spec fn captures_view(v: Seq<Option<String>>) -> Seq<Option<Seq<char>>> {
    v.map_values(|o: Option<String>| match o {
        Some(s) => Some(s@),
        None => None,
    })
}

/// Index of the first `}` in `s` at or after `k`; the length of `s` when
/// there is none.
pub open spec fn first_close_brace(s: Seq<char>, k: int) -> int
    decreases s.len() - k,
{
    if k < 0 || k >= s.len() {
        s.len() as int
    } else if s[k] == '}' {
        k
    } else {
        first_close_brace(s, k + 1)
    }
}

/// Where a `{{name}}` slot that starts at `i` has its closing `}}`: the name
/// is one or more characters other than `}`.
pub open spec fn slot_end(s: Seq<char>, i: int) -> Option<int> {
    if 0 <= i && i + 1 < s.len() && s[i] == '{' && s[i + 1] == '{' {
        let j = first_close_brace(s, i + 2);
        if i + 3 <= j && j + 1 < s.len() && s[j + 1] == '}' {
            Some(j)
        } else {
            None
        }
    } else {
        None
    }
}

/// The names of the `{{name}}` slots of `s` from position `i` on: the
/// leftmost slot first, the search going on after its `}}`.
pub open spec fn slot_names_from(s: Seq<char>, i: int) -> Seq<Seq<char>>
    decreases s.len() - i,
{
    if i < 0 || i >= s.len() {
        Seq::empty()
    } else {
        match slot_end(s, i) {
            Some(j) => if i + 3 <= j && j + 1 < s.len() {
                seq![s.subrange(i + 2, j)] + slot_names_from(s, j + 2)
            } else {
                Seq::empty()
            },
            None => slot_names_from(s, i + 1),
        }
    }
}

/// The names of the `{{name}}` slots of a text, left to right.
pub open spec fn placeholder_slot_names(s: Seq<char>) -> Seq<Seq<char>> {
    slot_names_from(s, 0)
}

/// Compiles `pattern` with `regex::Regex::new` and collects capture group
/// `group` of every match that `Regex::captures_iter` finds in `haystack`.
/// The result is the named `regex_group_captures` of the arguments. For the
/// placeholder regex `\{\{([^}]+)\}\}` and its group 1 the contract also
/// claims what the regex crate's leftmost-first, non-overlapping matching
/// gives: the pattern compiles, and the captures are the names of the
/// `{{name}}` slots (`placeholder_slot_names`), each present.
#[verifier::external_body]
fn regex_captures(pattern: &str, haystack: &str, group: usize) -> (r: Option<Vec<Option<String>>>)
    ensures
        regex_group_captures(pattern@, haystack@, group as nat) == match r {
            Some(v) => Some(captures_view(v@)),
            None => None,
        },
        r is None ==> !(pattern@ == PLACEHOLDER_REGEX@ && group == 1),
        r matches Some(v) ==> (pattern@ == PLACEHOLDER_REGEX@ && group == 1 ==> captures_view(v@)
            == all_present(placeholder_slot_names(haystack@))),
{
    match regex::Regex::new(pattern) {
        Ok(re) => Some(
            re.captures_iter(haystack).map(|c| c.get(group).map(|m| m.as_str().to_string())).collect(),
        ),
        Err(_) => None,
    }
}

/// The regular expression of a placeholder slot, `{{name}}`, with the name
/// as group 1.
pub const PLACEHOLDER_REGEX: &'static str = r"\{\{([^}]+)\}\}";

/// Every capture present: the captured texts; else `None`.
pub open spec fn all_captured(caps: Seq<Option<Seq<char>>>) -> Option<Seq<Seq<char>>>
    decreases caps.len(),
{
    if caps.len() == 0 {
        Some(Seq::empty())
    } else {
        match (all_captured(caps.drop_last()), caps.last()) {
            (Some(rest), Some(last)) => Some(rest.push(last)),
            _ => None,
        }
    }
}

/// The names of the placeholders made from regex captures: `None` when the
/// regex failed to compile or a capture lacks its group.
pub open spec fn placeholder_names(caps: Option<Seq<Option<Seq<char>>>>) -> Option<Seq<Seq<char>>> {
    match caps {
        Some(c) => all_captured(c),
        None => None,
    }
}

/// A placeholder with this name and empty value and sample.
pub open spec fn bare_placeholder(p: Placeholder, name: Seq<char>) -> bool {
    p.name@ == name && p.truevalue@.len() == 0 && p.example@.len() == 0
}

/// The placeholders are bare ones named by `names`, in order.
pub open spec fn bare_placeholders(ps: Seq<Placeholder>, names: Seq<Seq<char>>) -> bool {
    ps.len() == names.len() && forall|i: int| 0 <= i < ps.len() ==> bare_placeholder(#[trigger] ps[i], names[i])
}

/// Turns the group captures of the placeholder regex into bare placeholders.
pub fn placeholders_from_captures(caps: Option<Vec<Option<String>>>) -> (r: Option<Vec<Placeholder>>)
    ensures
        match placeholder_names(
            match caps {
                Some(v) => Some(captures_view(v@)),
                None => None,
            },
        ) {
            Some(names) => r matches Some(ps) && bare_placeholders(ps@, names),
            None => r is None,
        },
{
    match caps {
        None => None,
        Some(v) => {
            let ghost cv = captures_view(v@);
            let mut out: Vec<Placeholder> = Vec::new();
            let mut i: usize = 0;
            assert(cv.take(0) =~= Seq::<Option<Seq<char>>>::empty());
            while i < v.len()
                invariant
                    i <= v@.len(),
                    caps == Some(v),
                    cv == captures_view(v@),
                    all_captured(cv.take(i as int)) matches Some(names) && bare_placeholders(out@, names),
                decreases v@.len() - i,
            {
                assert(cv.take(i + 1).drop_last() =~= cv.take(i as int));
                match &v[i] {
                    Some(name) => {
                        let ghost names = all_captured(cv.take(i as int))->0;
                        out.push(Placeholder::new(name.clone(), String::new(), String::new()));
                        assert(all_captured(cv.take(i + 1)) == Some(names.push(name@)));
                        assert(bare_placeholders(out@, names.push(name@))) by {
                            assert forall|j: int| 0 <= j < out@.len() implies bare_placeholder(#[trigger] out@[j], names.push(name@)[j]) by {
                                if j < i {
                                }
                            }
                        }
                    },
                    None => {
                        proof {
                            assert(cv[i as int] is None);
                            lemma_all_captured_prefix(cv, i as int);
                        }
                        return None;
                    },
                }
                i = i + 1;
            }
            assert(cv.take(v@.len() as int) =~= cv);
            Some(out)
        },
    }
}

/// A missing capture anywhere makes the whole sequence fail.
proof fn lemma_all_captured_prefix(caps: Seq<Option<Seq<char>>>, i: int)
    requires
        0 <= i < caps.len(),
        caps[i] is None,
    ensures
        all_captured(caps) is None,
    decreases caps.len(),
{
    if i < caps.len() - 1 {
        lemma_all_captured_prefix(caps.drop_last(), i);
    }
}

/// Each name, as a capture that is present.
pub open spec fn all_present(names: Seq<Seq<char>>) -> Seq<Option<Seq<char>>> {
    names.map_values(|n: Seq<char>| Some(n))
}

/// Present captures of these names give exactly these names.
proof fn lemma_all_captured_present(names: Seq<Seq<char>>)
    ensures
        all_captured(all_present(names)) == Some(names),
    decreases names.len(),
{
    if names.len() > 0 {
        lemma_all_captured_present(names.drop_last());
        assert(names.map_values(|n: Seq<char>| Some(n)).drop_last() =~= names.drop_last().map_values(
            |n: Seq<char>| Some(n),
        ));
        assert(names.drop_last().push(names.last()) =~= names);
    } else {
        assert(names.map_values(|n: Seq<char>| Some(n)) =~= Seq::<Option<Seq<char>>>::empty());
    }
}

/// The bare placeholders named by the `{{name}}` slots of `body`, left to
/// right (the result is always `Some`).
pub fn find_placeholders_in_body(body: &str) -> (r: Option<Vec<Placeholder>>)
    ensures
        r matches Some(ps) && bare_placeholders(ps@, placeholder_slot_names(body@)),
{
    let caps = regex_captures(PLACEHOLDER_REGEX, body, 1);
    proof {
        lemma_all_captured_present(placeholder_slot_names(body@));
    }
    placeholders_from_captures(caps)
}


/// The prefix of the labels of user-made templates.
pub open spec fn custom_prefix() -> Seq<char> {
    seq!['c', 'u', 's', 't', 'o', 'm']
}

/// The number of a label `custom<n>` (as `strip_prefix("custom")` then
/// `parse::<u32>()` read it); `None` for other labels.
pub open spec fn custom_number(label: Seq<char>) -> Option<u32> {
    if label.len() >= 6 && label.take(6) == custom_prefix() {
        parse_u32_seq(label.skip(6))
    } else {
        None
    }
}

/// The greatest custom number among the templates' labels, 0 when there is
/// none.
pub open spec fn max_custom_number_seq(ts: Seq<Template>) -> u32
    decreases ts.len(),
{
    if ts.len() == 0 {
        0
    } else {
        let m = max_custom_number_seq(ts.drop_last());
        match custom_number(ts.last().label@) {
            Some(n) => if n > m {
                n
            } else {
                m
            },
            None => m,
        }
    }
}

/// The label `custom<m+1>`, `m` being the greatest custom number in use.
pub open spec fn next_custom_label_seq(ts: Seq<Template>) -> Seq<char> {
    custom_prefix() + decimal_seq((max_custom_number_seq(ts) + 1) as nat)
}

/// The custom number of a label, if it has one.
pub fn custom_number_of(label: &str) -> (r: Option<u32>)
    ensures
        r == custom_number(label@),
{
    let c = chars_of(label);
    if c.len() < 6 {
        return None;
    }
    let prefix: Vec<char> = vec!['c', 'u', 's', 't', 'o', 'm'];
    let mut head: Vec<char> = Vec::new();
    let mut rest: Vec<char> = Vec::new();
    let mut i: usize = 0;
    while i < c.len()
        invariant
            6 <= c@.len(),
            i <= c@.len(),
            head@ == c@.take(if i < 6 { i as int } else { 6 }),
            rest@ == if i < 6 { Seq::<char>::empty() } else { c@.subrange(6, i as int) },
        decreases c@.len() - i,
    {
        if i < 6 {
            head.push(c[i]);
        } else {
            rest.push(c[i]);
        }
        i = i + 1;
        assert(head@ =~= c@.take(if i < 6 { i as int } else { 6 }));
        assert(rest@ =~= if i < 6 { Seq::<char>::empty() } else { c@.subrange(6, i as int) });
    }
    assert(rest@ =~= c@.skip(6));
    assert(prefix@ =~= custom_prefix());
    if same_chars(&head, &prefix) {
        parse_u32(&rest)
    } else {
        None
    }
}

/// The greatest custom number among the templates' labels, 0 when there is
/// none.
pub fn max_custom_number(templates: &Vec<Template>) -> (r: u32)
    ensures
        r == max_custom_number_seq(templates@),
        forall|i: int|
            0 <= i < templates@.len() ==> (custom_number(#[trigger] templates@[i].label@) matches Some(
                n,
            ) ==> n <= r),
        (exists|i: int|
            0 <= i < templates@.len() && custom_number(#[trigger] templates@[i].label@) == Some(r))
            || (r == 0 && forall|i: int|
            0 <= i < templates@.len() ==> custom_number(#[trigger] templates@[i].label@) is None),
{
    proof {
        lemma_max_custom_number_is_greatest(templates@);
    }
    let mut m: u32 = 0;
    let mut i: usize = 0;
    assert(templates@.take(0) =~= Seq::<Template>::empty());
    while i < templates.len()
        invariant
            i <= templates@.len(),
            m == max_custom_number_seq(templates@.take(i as int)),
        decreases templates@.len() - i,
    {
        assert(templates@.take(i + 1).drop_last() =~= templates@.take(i as int));
        assert(templates@.take(i + 1).last() == templates@[i as int]);
        match custom_number_of(templates[i].label.as_str()) {
            Some(n) => {
                if n > m {
                    m = n;
                }
            },
            None => {},
        }
        i = i + 1;
    }
    assert(templates@.take(templates@.len() as int) =~= templates@);
    m
}

/// The label for the next user-made template: `custom` followed by one more
/// than the greatest custom number in use.
pub fn next_custom_label(templates: &Vec<Template>) -> (r: String)
    requires
        max_custom_number_seq(templates@) < u32::MAX,
    ensures
        r@ == next_custom_label_seq(templates@),
        custom_number(r@) matches Some(k) && {
            &&& forall|i: int|
                0 <= i < templates@.len() ==> (custom_number(#[trigger] templates@[i].label@) matches Some(
                    n,
                ) ==> n < k)
            &&& (exists|i: int|
                0 <= i < templates@.len() && custom_number(#[trigger] templates@[i].label@) == Some(
                    (k - 1) as u32,
                )) || (k == 1 && forall|i: int|
                0 <= i < templates@.len() ==> custom_number(#[trigger] templates@[i].label@) is None)
        },
{
    proof {
        lemma_next_custom_label_number(templates@);
        lemma_max_custom_number_is_greatest(templates@);
    }
    let m = max_custom_number(templates);
    let mut out: Vec<char> = vec!['c', 'u', 's', 't', 'o', 'm'];
    assert(out@ =~= custom_prefix());
    push_decimal(m + 1, &mut out);
    string_of(&out)
}

/// Appends a user-made template with the given body and type, an empty
/// subject, the placeholders found in the body and the next custom label,
/// and returns that label (always `Some`).
pub fn add_custom_template(templates: &mut Vec<Template>, body: String, ttype: TemplateTypes) -> (r:
    Option<String>)
    requires
        max_custom_number_seq(old(templates)@) < u32::MAX,
    ensures
        r matches Some(label) && {
            &&& label@ == next_custom_label_seq(old(templates)@)
            &&& final(templates)@.len() == old(templates)@.len() + 1
            &&& final(templates)@.take(old(templates)@.len() as int) == old(templates)@
            &&& final(templates)@.last().ttype == ttype
            &&& final(templates)@.last().label@ == label@
            &&& final(templates)@.last().subject@ == Seq::<char>::empty()
            &&& final(templates)@.last().body@ == body@
            &&& bare_placeholders(final(templates)@.last().placeholders@, placeholder_slot_names(body@))
        },
{
    let label = next_custom_label(templates);
    match find_placeholders_in_body(body.as_str()) {
        None => None,
        Some(placeholders) => {
            let result = label.clone();
            let t = Template::new(ttype, label, String::new(), body, placeholders);
            templates.push(t);
            assert(final(templates)@.take(old(templates)@.len() as int) =~= old(templates)@);
            Some(result)
        },
    }
}

/// After a user-made template is appended, looking up its label finds it.
pub proof fn lemma_added_template_is_found(ts: Seq<Template>, t: Template)
    requires
        max_custom_number_seq(ts) < u32::MAX,
        t.label@ == next_custom_label_seq(ts),
    ensures
        has_label(ts.push(t), t.label@),
        is_first_with_label(ts.push(t), t.label@, t@),
{
    lemma_next_custom_label_fresh(ts);
    let n = ts.push(t);
    assert(n[ts.len() as int] == t);
    assert forall|j: int| 0 <= j < ts.len() implies n[j].label@ != t.label@ by {
        assert(n[j] == ts[j]);
    }
}

/// Every custom number in use is at most the greatest one.
proof fn lemma_max_custom_number_bounds(ts: Seq<Template>, i: int)
    requires
        0 <= i < ts.len(),
    ensures
        custom_number(ts[i].label@) matches Some(n) ==> n <= max_custom_number_seq(ts),
    decreases ts.len(),
{
    if i < ts.len() - 1 {
        lemma_max_custom_number_bounds(ts.drop_last(), i);
    }
}

/// The greatest custom number in use is at least every template's custom
/// number, and it is the custom number of some template, or 0 when no label
/// is `custom<n>`.
pub proof fn lemma_max_custom_number_is_greatest(ts: Seq<Template>)
    ensures
        forall|i: int|
            0 <= i < ts.len() ==> (custom_number(#[trigger] ts[i].label@) matches Some(n) ==> n
                <= max_custom_number_seq(ts)),
        (exists|i: int|
            0 <= i < ts.len() && custom_number(#[trigger] ts[i].label@) == Some(
                max_custom_number_seq(ts),
            )) || (max_custom_number_seq(ts) == 0 && forall|i: int|
            0 <= i < ts.len() ==> custom_number(#[trigger] ts[i].label@) is None),
    decreases ts.len(),
{
    assert forall|i: int| 0 <= i < ts.len() implies (custom_number(#[trigger] ts[i].label@) matches Some(
        n,
    ) ==> n <= max_custom_number_seq(ts)) by {
        lemma_max_custom_number_bounds(ts, i);
    }
    if ts.len() > 0 {
        let front = ts.drop_last();
        lemma_max_custom_number_is_greatest(front);
        let m = max_custom_number_seq(front);
        let last = ts.len() - 1;
        if custom_number(ts[last].label@) matches Some(n) && n > m {
            assert(custom_number(ts[last].label@) == Some(max_custom_number_seq(ts)));
        } else {
            assert(max_custom_number_seq(ts) == m);
            if exists|i: int| 0 <= i < front.len() && custom_number(#[trigger] front[i].label@) == Some(m) {
                let i = choose|i: int|
                    0 <= i < front.len() && custom_number(#[trigger] front[i].label@) == Some(m);
                assert(front[i] == ts[i]);
            } else if custom_number(ts[last].label@) is Some {
                assert(m == 0);
                assert(custom_number(ts[last].label@) == Some(max_custom_number_seq(ts)));
            } else {
                assert forall|i: int| 0 <= i < ts.len() implies custom_number(
                    #[trigger] ts[i].label@,
                ) is None by {
                    if i < last {
                        assert(front[i] == ts[i]);
                    }
                }
            }
        }
    }
}

/// The custom number of the next custom label is one more than the greatest
/// one in use.
pub proof fn lemma_next_custom_label_number(ts: Seq<Template>)
    requires
        max_custom_number_seq(ts) < u32::MAX,
    ensures
        custom_number(next_custom_label_seq(ts)) == Some((max_custom_number_seq(ts) + 1) as u32),
{
    let n = (max_custom_number_seq(ts) + 1) as u32;
    let l = next_custom_label_seq(ts);
    lemma_parse_decimal(n);
    assert(l.take(6) =~= custom_prefix());
    assert(l.skip(6) =~= decimal_seq(n as nat));
}

/// The label given to a new user-made template is not the label of any
/// template already there.
pub proof fn lemma_next_custom_label_fresh(ts: Seq<Template>)
    requires
        max_custom_number_seq(ts) < u32::MAX,
    ensures
        forall|i: int| 0 <= i < ts.len() ==> ts[i].label@ != next_custom_label_seq(ts),
{
    lemma_next_custom_label_number(ts);
    assert forall|i: int| 0 <= i < ts.len() implies ts[i].label@ != next_custom_label_seq(ts) by {
        lemma_max_custom_number_bounds(ts, i);
    }
}


/// A bare drive such as `C:`.
pub open spec fn is_drive_only(base: Seq<char>) -> bool {
    &&& base.len() == 2
    &&& base[1] == ':'
    &&& ('a' <= base[0] && base[0] <= 'z') || ('A' <= base[0] && base[0] <= 'Z')
}

/// Whether `PathBuf::push` puts a separator between `base` and a relative
/// name, on a platform whose main separator is `separator`: when `base` is
/// not empty and does not end with a separator (`/`, or the main one), and,
/// on Windows (main separator `\`), is not a bare drive.
pub open spec fn needs_separator(base: Seq<char>, separator: char) -> bool {
    &&& base.len() > 0
    &&& base.last() != '/'
    &&& base.last() != separator
    &&& !(separator == '\\' && is_drive_only(base))
}

/// The name of the configuration directory.
pub open spec fn configs_name() -> Seq<char> {
    seq!['c', 'o', 'n', 'f', 'i', 'g', 's']
}

/// `base` joined with `configs` as `Path::join` does on a platform whose main
/// separator is `separator`.
pub open spec fn configs_dir_seq(base: Seq<char>, separator: char) -> Seq<char> {
    if needs_separator(base, separator) {
        base + seq![separator] + configs_name()
    } else {
        base + configs_name()
    }
}

/// A verbatim Windows path (`\\?\...`) on a platform whose main separator is
/// `\`.
pub open spec fn is_verbatim(base: Seq<char>, separator: char) -> bool {
    separator == '\\' && base.len() >= 4 && base.take(4) == seq!['\\', '\\', '?', '\\']
}

/// Joins `child` to `base` with `std::path::Path::join` on the running
/// platform; the text is UTF-8 on both sides, so the conversion back loses
/// nothing. What comes out follows the platform's path rules, so nothing is
/// stated of it.
#[verifier::external_body]
fn native_path_join(base: &str, child: &str) -> String {
    std::path::Path::new(base).join(child).to_string_lossy().into_owned()
}

/// The directory of the configuration files: `configs` inside the given
/// manifest directory, joined as `Path::join` does on the platform whose main
/// path separator (`std::path::MAIN_SEPARATOR`) is `separator`. A verbatim
/// Windows path, which `Path::join` rebuilds from its components, is joined
/// by `Path::join` itself.
pub fn configs_dir(manifest_dir: &str, separator: char) -> (r: String)
    ensures
        !is_verbatim(manifest_dir@, separator) ==> r@ == configs_dir_seq(manifest_dir@, separator),
{
    let mut out = chars_of(manifest_dir);
    let n = out.len();
    if separator == '\\' && n >= 4 && out[0] == '\\' && out[1] == '\\' && out[2] == '?' && out[3]
        == '\\' {
        assert(manifest_dir@.take(4) =~= seq!['\\', '\\', '?', '\\']);
        return native_path_join(manifest_dir, "configs");
    }
    assert(!is_verbatim(manifest_dir@, separator)) by {
        if is_verbatim(manifest_dir@, separator) {
            assert(manifest_dir@.take(4)[3] == manifest_dir@[3]);
            assert(manifest_dir@.take(4)[0] == manifest_dir@[0]);
            assert(manifest_dir@.take(4)[1] == manifest_dir@[1]);
            assert(manifest_dir@.take(4)[2] == manifest_dir@[2]);
        }
    }
    let drive_only = n == 2 && out[1] == ':' && (('a' <= out[0] && out[0] <= 'z') || (
    'A' <= out[0] && out[0] <= 'Z'));
    if n > 0 && out[n - 1] != '/' && out[n - 1] != separator && !(separator == '\\' && drive_only) {
        out.push(separator);
    }
    let name: Vec<char> = vec!['c', 'o', 'n', 'f', 'i', 'g', 's'];
    let ghost before = out@;
    let mut i: usize = 0;
    while i < name.len()
        invariant
            name@ == configs_name(),
            i <= name@.len(),
            out@ == before + name@.take(i as int),
        decreases name@.len() - i,
    {
        out.push(name[i]);
        i = i + 1;
        assert(out@ =~= before + name@.take(i as int));
    }
    assert(name@.take(7) =~= name@);
    assert(out@ =~= configs_dir_seq(manifest_dir@, separator));
    string_of(&out)
}

/// The configuration written on the first start: the three preset template
/// names, the `creds` and `signature` placeholders with samples, an Access
/// database and no database file yet.
pub fn default_config() -> (r: Config)
    ensures
        r.templates_file_path@ == "templates.json"@,
        r.new_reservation_name@ == "rezerwacja preset"@,
        r.update_reservation_name@ == "aktualizacja preset"@,
        r.delete_reservation_name@ == "odwołanie preset"@,
        r.custom_templates_name@ == Seq::<String>::empty(),
        r.placeholders@.len() == 2,
        r.placeholders@[0].name@ == "creds"@,
        r.placeholders@[0].truevalue@ == Seq::<char>::empty(),
        r.placeholders@[0].example@ == "Jan Kowalski"@,
        r.placeholders@[1].name@ == "signature"@,
        r.placeholders@[1].truevalue@ == Seq::<char>::empty(),
        r.placeholders@[1].example@ == "Twoja firma"@,
        r.db_type == DBTypes::Access,
        r.db_path is None,
{
    let mut placeholders: Vec<Placeholder> = Vec::new();
    placeholders.push(Placeholder::new("creds".to_owned(), String::new(), "Jan Kowalski".to_owned()));
    placeholders.push(Placeholder::new("signature".to_owned(), String::new(), "Twoja firma".to_owned()));
    Config {
        templates_file_path: "templates.json".to_owned(),
        new_reservation_name: "rezerwacja preset".to_owned(),
        update_reservation_name: "aktualizacja preset".to_owned(),
        delete_reservation_name: "odwołanie preset".to_owned(),
        custom_templates_name: Vec::new(),
        placeholders,
        db_type: DBTypes::Access,
        db_path: None,
    }
}

/// One configuration setting with its new value.
pub enum ConfigVar {
    DBtype(DBTypes),
    DBpath(Option<String>),
}

/// Sets one configuration field and leaves the others.
pub fn apply_config_var(config: &mut Config, var: ConfigVar)
    ensures
        match var {
            ConfigVar::DBtype(t) => *final(config) == (Config { db_type: t, ..*old(config) }),
            ConfigVar::DBpath(p) => *final(config) == (Config { db_path: p, ..*old(config) }),
        },
{
    match var {
        ConfigVar::DBtype(t) => config.db_type = t,
        ConfigVar::DBpath(p) => config.db_path = p,
    }
}

/// Makes `label` the name of the default template of the given type: new,
/// updated or cancelled reservations; an untyped template changes nothing.
pub fn set_default_template(config: &mut Config, ttype: TemplateTypes, label: String)
    ensures
        match ttype {
            TemplateTypes::NewRes => *final(config) == (Config {
                new_reservation_name: label,
                ..*old(config)
            }),
            TemplateTypes::UpdateRes => *final(config) == (Config {
                update_reservation_name: label,
                ..*old(config)
            }),
            TemplateTypes::CancelRes => *final(config) == (Config {
                delete_reservation_name: label,
                ..*old(config)
            }),
            TemplateTypes::Untyped => *final(config) == *old(config),
        },
{
    match ttype {
        TemplateTypes::NewRes => config.new_reservation_name = label,
        TemplateTypes::UpdateRes => config.update_reservation_name = label,
        TemplateTypes::CancelRes => config.delete_reservation_name = label,
        TemplateTypes::Untyped => {},
    }
}


/// Filling one more placeholder replaces, in the text filled so far, every
/// `{{name}}` (the name as it is) with the placeholder's value, or with its
/// sample while the value is empty, even when that is empty too.
pub proof fn lemma_fill_step(text: Seq<char>, ps: Seq<Placeholder>, p: Placeholder)
    ensures
        fill_placeholders(text, ps.push(p)) == replace_seq(
            fill_placeholders(text, ps),
            seq!['{', '{'] + p.name@ + seq!['}', '}'],
            if p.truevalue@.len() > 0 {
                p.truevalue@
            } else {
                p.example@
            },
        ),
{
    assert(ps.push(p).drop_last() =~= ps);
    assert(ps.push(p).last() == p);
}

/// A text that is exactly the slot `{{name}}` of a placeholder renders to
/// that placeholder's value, or its sample while the value is empty.
pub proof fn lemma_fill_single_slot(p: Placeholder)
    ensures
        fill_placeholders(seq!['{', '{'] + p.name@ + seq!['}', '}'], seq![p]) == if p.truevalue@.len()
            > 0 {
            p.truevalue@
        } else {
            p.example@
        },
{
    let slot = seq!['{', '{'] + p.name@ + seq!['}', '}'];
    let value = if p.truevalue@.len() > 0 {
        p.truevalue@
    } else {
        p.example@
    };
    lemma_fill_step(slot, Seq::empty(), p);
    assert(Seq::<Placeholder>::empty().push(p) =~= seq![p]);
    assert(fill_placeholders(slot, Seq::empty()) == slot);
    assert(slot.take(slot.len() as int) =~= slot);
    assert(slot.skip(slot.len() as int) =~= Seq::<char>::empty());
    assert(replace_seq(Seq::<char>::empty(), slot, value) == Seq::<char>::empty());
    assert(value + Seq::<char>::empty() =~= value);
}

/// Rendering with no placeholders leaves a text as it is.
pub proof fn lemma_fill_without_placeholders(text: Seq<char>)
    ensures
        fill_placeholders(text, Seq::empty()) == text,
{
}

/// A text with no `{{` in it comes out of rendering unchanged, whatever the
/// placeholders.
pub proof fn lemma_fill_text_without_slots(text: Seq<char>, ps: Seq<Placeholder>)
    requires
        !contains_seq(text, seq!['{', '{']),
    ensures
        fill_placeholders(text, ps) == text,
    decreases ps.len(),
{
    if ps.len() > 0 {
        lemma_fill_text_without_slots(text, ps.drop_last());
        let pat = placeholder_pattern(ps.last().name@);
        assert forall|i: int| !occurs_at(text, pat, i) by {
            if occurs_at(text, pat, i) {
                assert(pat.subrange(0, 2) =~= seq!['{', '{']);
                assert(text.subrange(i, i + pat.len()) == pat);
                assert(text.subrange(i, i + 2) =~= text.subrange(i, i + pat.len()).subrange(0, 2));
                assert(occurs_at(text, seq!['{', '{'], i));
            }
        }
        lemma_replace_absent(text, pat, placeholder_value(ps.last()));
    }
}

/// A template that matches the query is among the matches.
proof fn lemma_matching_has(ts: Seq<Template>, query: Seq<char>, i: int)
    requires
        0 <= i < ts.len(),
        label_matches(ts[i], query),
    ensures
        matching_templates(ts, query).contains(ts[i]@),
    decreases ts.len(),
{
    let m = matching_templates(ts, query);
    if i == ts.len() - 1 {
        assert(m.last() == ts[i]@);
    } else {
        lemma_matching_has(ts.drop_last(), query, i);
        let rest = matching_templates(ts.drop_last(), query);
        let k = choose|k: int| 0 <= k < rest.len() && rest[k] == ts[i]@;
        assert(m[k] == ts[i]@);
    }
}

/// Every template whose label is exactly the query is also found by the
/// case-insensitive search for it.
pub proof fn lemma_exact_label_found_by_search(ts: Seq<Template>, label: Seq<char>, i: int)
    requires
        0 <= i < ts.len(),
        ts[i].label@ == label,
    ensures
        matching_templates(ts, label).contains(ts[i]@),
        matching_templates(ts, label).len() > 0,
{
    let l = lowercase(label);
    assert(l.subrange(0, l.len() as int) =~= l);
    assert(occurs_at(l, l, 0));
    lemma_matching_has(ts, label, i);
}

} // verus!
