//! Prompt styles: the built-in set and the custom ones from the configuration.
use crate::config::StyleConfig;
use crate::text::{contains_sub, owned, str_contains};
use vstd::prelude::*;

verus! {

/// A style: its name, a description, and a template holding `{prompt}`.
#[derive(Clone)]
pub struct Style {
    pub name: String,
    pub description: String,
    pub template: String,
}

/// A style as (name, description, template).
pub type StyleView = (Seq<char>, Seq<char>, Seq<char>);

impl View for Style {
    type V = StyleView;

    open spec fn view(&self) -> StyleView {
        (self.name@, self.description@, self.template@)
    }
}

/// The views of a list of styles.
pub open spec fn style_views(v: Seq<Style>) -> Seq<StyleView> {
    v.map_values(|s: Style| s@)
}

/// The views of a list of custom styles.
pub open spec fn custom_views(v: Seq<StyleConfig>) -> Seq<StyleView> {
    v.map_values(|s: StyleConfig| s@)
}

/// The built-in styles, in order.
pub open spec fn builtin_styles() -> Seq<StyleView> {
    seq![
        ("watercolor"@, "Watercolor painting style"@, "{prompt}, as a watercolor painting"@),
        ("oil-painting"@, "Oil painting with visible brushstrokes"@, "{prompt}, as an oil painting with visible brushstrokes"@),
        ("pencil-sketch"@, "Detailed pencil sketch"@, "{prompt}, as a detailed pencil sketch"@),
        ("pixel-art"@, "Retro pixel art"@, "{prompt}, as retro pixel art"@),
        ("anime"@, "Anime style illustration"@, "{prompt}, in anime style"@),
        ("pop-art"@, "Bold pop art style"@, "{prompt}, in bold pop art style"@),
        ("art-nouveau"@, "Art nouveau with flowing organic lines"@, "{prompt}, in art nouveau style with flowing organic lines"@),
        ("cinematic"@, "Cinematic photography with dramatic lighting"@, "{prompt}, cinematic photography with dramatic lighting"@),
        ("portrait"@, "Professional portrait photography"@, "{prompt}, professional portrait photography with shallow depth of field"@),
        ("macro"@, "Extreme macro photography"@, "{prompt}, extreme macro photography with sharp detail"@),
        ("aerial"@, "Aerial drone photography"@, "{prompt}, aerial drone photography"@),
        ("studio"@, "Studio photography on clean background"@, "{prompt}, studio photography on clean background with controlled lighting"@),
        ("noir"@, "Dark film noir style"@, "{prompt}, in dark film noir style with high contrast black and white"@),
        ("vintage"@, "Faded vintage photograph"@, "{prompt}, as a faded vintage photograph with warm tones"@),
    ]
}

/// `i` is the first position in `styles` whose name is `name`.
pub open spec fn is_first_named(styles: Seq<StyleView>, name: Seq<char>, i: int) -> bool {
    &&& 0 <= i < styles.len()
    &&& styles[i].0 == name
    &&& forall|j: int| 0 <= j < i ==> styles[j].0 != name
}

/// The position of the first style named `name`, if any (what `iter().find` by name picks).
pub open spec fn name_index(styles: Seq<StyleView>, name: Seq<char>) -> Option<int> {
    if exists|i: int| 0 <= i < styles.len() && styles[i].0 == name {
        Some(choose|i: int| is_first_named(styles, name, i))
    } else {
        None
    }
}

/// A custom style is accepted when its template holds the `{prompt}` placeholder.
pub open spec fn accepted(c: StyleView) -> bool {
    contains_sub(c.2, "{prompt}"@)
}

/// One custom style applied to the list: skipped without placeholder, else
/// overriding the description and template of the style with its name, else appended.
pub open spec fn apply_custom(styles: Seq<StyleView>, c: StyleView) -> Seq<StyleView> {
    if !accepted(c) {
        styles
    } else {
        match name_index(styles, c.0) {
            Some(i) => styles.update(i, (styles[i].0, c.1, c.2)),
            None => styles.push(c),
        }
    }
}

/// The style list after the built-ins and then each of `custom`, in order.
pub open spec fn styles_after(custom: Seq<StyleView>) -> Seq<StyleView>
    decreases custom.len(),
{
    if custom.len() == 0 {
        builtin_styles()
    } else {
        apply_custom(styles_after(custom.drop_last()), custom.last())
    }
}

/// No two styles share a name.
pub open spec fn names_distinct(styles: Seq<StyleView>) -> bool {
    forall|i: int, j: int|
        0 <= i < styles.len() && 0 <= j < styles.len() && i != j ==> styles[i].0 != styles[j].0
}

proof fn lemma_first_named_exists(styles: Seq<StyleView>, name: Seq<char>, k: int)
    requires
        0 <= k < styles.len(),
        styles[k].0 == name,
    ensures
        exists|i: int| is_first_named(styles, name, i),
    decreases k,
{
    if exists|j: int| 0 <= j < k && styles[j].0 == name {
        let j = choose|j: int| 0 <= j < k && styles[j].0 == name;
        lemma_first_named_exists(styles, name, j);
    } else {
        assert(is_first_named(styles, name, k));
    }
}

/// `name_index` is the first position with that name.
pub proof fn lemma_name_index(styles: Seq<StyleView>, name: Seq<char>, k: int)
    requires
        is_first_named(styles, name, k),
    ensures
        name_index(styles, name) == Some(k),
{
    lemma_first_named_exists(styles, name, k);
    let i = choose|i: int| is_first_named(styles, name, i);
    assert(!(i < k));
    assert(!(k < i));
}

/// `name_index` finds a style with the name, when there is one.
pub proof fn lemma_name_index_some(styles: Seq<StyleView>, name: Seq<char>)
    requires
        name_index(styles, name) is Some,
    ensures
        is_first_named(styles, name, name_index(styles, name)->0),
{
    let k = choose|k: int| 0 <= k < styles.len() && styles[k].0 == name;
    lemma_first_named_exists(styles, name, k);
}

/// The position of the first style named `name` in `styles`.
pub fn find_style(styles: &Vec<Style>, name: &str) -> (r: Option<usize>)
    ensures
        match r {
            Some(i) => name_index(style_views(styles@), name@) == Some(i as int) && i
                < styles@.len() && styles@[i as int].name@ == name@,
            None => name_index(style_views(styles@), name@) is None,
        },
{
    let key = owned(name);
    let ghost views = style_views(styles@);
    let mut i: usize = 0;
    while i < styles.len()
        invariant
            views == style_views(styles@),
            key@ == name@,
            i <= styles.len(),
            forall|j: int| 0 <= j < i ==> views[j].0 != name@,
        decreases styles.len() - i,
    {
        if styles[i].name == key {
            proof {
                lemma_name_index(views, name@, i as int);
            }
            return Some(i);
        }
        i = i + 1;
    }
    None
}

fn style(name: &str, description: &str, template: &str) -> (s: Style)
    ensures
        s@ == (name@, description@, template@),
{
    Style { name: owned(name), description: owned(description), template: owned(template) }
}

/// The built-in styles.
pub fn builtin_style_list() -> (v: Vec<Style>)
    ensures
        style_views(v@) == builtin_styles(),
{
    let mut v: Vec<Style> = Vec::new();
    v.push(style("watercolor", "Watercolor painting style", "{prompt}, as a watercolor painting"));
    v.push(
        style(
            "oil-painting",
            "Oil painting with visible brushstrokes",
            "{prompt}, as an oil painting with visible brushstrokes",
        ),
    );
    v.push(style("pencil-sketch", "Detailed pencil sketch", "{prompt}, as a detailed pencil sketch"));
    v.push(style("pixel-art", "Retro pixel art", "{prompt}, as retro pixel art"));
    v.push(style("anime", "Anime style illustration", "{prompt}, in anime style"));
    v.push(style("pop-art", "Bold pop art style", "{prompt}, in bold pop art style"));
    v.push(
        style(
            "art-nouveau",
            "Art nouveau with flowing organic lines",
            "{prompt}, in art nouveau style with flowing organic lines",
        ),
    );
    v.push(
        style(
            "cinematic",
            "Cinematic photography with dramatic lighting",
            "{prompt}, cinematic photography with dramatic lighting",
        ),
    );
    v.push(
        style(
            "portrait",
            "Professional portrait photography",
            "{prompt}, professional portrait photography with shallow depth of field",
        ),
    );
    v.push(
        style(
            "macro",
            "Extreme macro photography",
            "{prompt}, extreme macro photography with sharp detail",
        ),
    );
    v.push(style("aerial", "Aerial drone photography", "{prompt}, aerial drone photography"));
    v.push(
        style(
            "studio",
            "Studio photography on clean background",
            "{prompt}, studio photography on clean background with controlled lighting",
        ),
    );
    v.push(
        style(
            "noir",
            "Dark film noir style",
            "{prompt}, in dark film noir style with high contrast black and white",
        ),
    );
    v.push(
        style(
            "vintage",
            "Faded vintage photograph",
            "{prompt}, as a faded vintage photograph with warm tones",
        ),
    );
    assert(style_views(v@) =~= builtin_styles());
    v
}

/// The built-in styles followed by the custom ones: a custom style without the
/// `{prompt}` placeholder is skipped, one whose name is taken replaces that style's
/// description and template, and any other is appended.
pub fn build_styles(custom: &[StyleConfig]) -> (styles: Vec<Style>)
    ensures
        style_views(styles@) == styles_after(custom_views(custom@)),
{
    let mut styles = builtin_style_list();
    let ghost cv = custom_views(custom@);
    let mut k: usize = 0;
    while k < custom.len()
        invariant
            cv == custom_views(custom@),
            k <= custom.len(),
            style_views(styles@) == styles_after(cv.take(k as int)),
        decreases custom.len() - k,
    {
        let cs = &custom[k];
        let ghost before = style_views(styles@);
        assert(cv.take(k + 1).drop_last() =~= cv.take(k as int));
        assert(cv.take(k + 1).last() == cs@);
        if str_contains(cs.template.as_str(), "{prompt}") {
            match find_style(&styles, cs.name.as_str()) {
                Some(i) => {
                    proof {
                        lemma_name_index_some(before, cs.name@);
                    }
                    styles[i].description = cs.description.clone();
                    styles[i].template = cs.template.clone();
                    assert(style_views(styles@) =~= before.update(
                        i as int,
                        (before[i as int].0, cs.description@, cs.template@),
                    ));
                },
                None => {
                    styles.push(
                        Style {
                            name: cs.name.clone(),
                            description: cs.description.clone(),
                            template: cs.template.clone(),
                        },
                    );
                    assert(style_views(styles@) =~= before.push(cs@));
                },
            }
        }
        k = k + 1;
    }
    assert(cv.take(custom.len() as int) =~= cv);
    styles
}

/// The built-in styles have pairwise distinct names.
pub proof fn lemma_builtin_names_distinct()
    ensures
        names_distinct(builtin_styles()),
{
    reveal_strlit("watercolor");
    reveal_strlit("oil-painting");
    reveal_strlit("pencil-sketch");
    reveal_strlit("pixel-art");
    reveal_strlit("anime");
    reveal_strlit("pop-art");
    reveal_strlit("art-nouveau");
    reveal_strlit("cinematic");
    reveal_strlit("portrait");
    reveal_strlit("macro");
    reveal_strlit("aerial");
    reveal_strlit("studio");
    reveal_strlit("noir");
    reveal_strlit("vintage");
    let b = builtin_styles();
    assert forall|i: int, j: int| 0 <= i < b.len() && 0 <= j < b.len() && i != j implies b[i].0
        != b[j].0 by {
        if b[i].0 == b[j].0 {
            assert(b[i].0.len() == b[j].0.len());
            assert(b[i].0[0] == b[j].0[0]);
            assert(b[i].0[1] == b[j].0[1]);
            assert(b[i].0[2] == b[j].0[2]);
        }
    }
}

proof fn lemma_name_index_none(styles: Seq<StyleView>, name: Seq<char>)
    requires
        name_index(styles, name) is None,
    ensures
        forall|i: int| 0 <= i < styles.len() ==> styles[i].0 != name,
{
}

/// Law: whatever the custom styles, no two styles of the list share a name.
pub proof fn law_style_names_distinct(custom: Seq<StyleView>)
    ensures
        names_distinct(styles_after(custom)),
    decreases custom.len(),
{
    if custom.len() == 0 {
        lemma_builtin_names_distinct();
    } else {
        let prev = styles_after(custom.drop_last());
        law_style_names_distinct(custom.drop_last());
        let c = custom.last();
        if accepted(c) {
            match name_index(prev, c.0) {
                Some(i) => {
                    lemma_name_index_some(prev, c.0);
                },
                None => {
                    lemma_name_index_none(prev, c.0);
                },
            }
        }
    }
}

/// Law: the built-in styles keep their names and their places at the head of the
/// list; custom styles only ever replace their text or come after them.
pub proof fn law_builtins_keep_their_place(custom: Seq<StyleView>)
    ensures
        styles_after(custom).len() >= builtin_styles().len(),
        forall|i: int|
            0 <= i < builtin_styles().len() ==> #[trigger] styles_after(custom)[i].0
                == builtin_styles()[i].0,
    decreases custom.len(),
{
    if custom.len() > 0 {
        let prev = styles_after(custom.drop_last());
        law_builtins_keep_their_place(custom.drop_last());
        let c = custom.last();
        if accepted(c) {
            match name_index(prev, c.0) {
                Some(i) => {
                    lemma_name_index_some(prev, c.0);
                    assert forall|j: int| 0 <= j < builtin_styles().len() implies #[trigger] styles_after(
                        custom,
                    )[j].0 == builtin_styles()[j].0 by {
                        assert(prev[j].0 == builtin_styles()[j].0);
                    }
                },
                None => {
                    assert forall|j: int| 0 <= j < builtin_styles().len() implies #[trigger] styles_after(
                        custom,
                    )[j].0 == builtin_styles()[j].0 by {
                        assert(prev[j].0 == builtin_styles()[j].0);
                    }
                },
            }
        }
    }
}

/// Law: every style of the list is an untouched built-in or, name, description and
/// template alike, one of the custom styles that hold the `{prompt}` placeholder.
pub proof fn law_style_origin(custom: Seq<StyleView>, i: int)
    requires
        0 <= i < styles_after(custom).len(),
    ensures
        (i < builtin_styles().len() && styles_after(custom)[i] == builtin_styles()[i]) || exists|
            k: int,
        |
            0 <= k < custom.len() && accepted(custom[k]) && styles_after(custom)[i] == custom[k],
    decreases custom.len(),
{
    if custom.len() > 0 {
        let prev = styles_after(custom.drop_last());
        let c = custom.last();
        let n: int = custom.len() - 1;
        assert(custom[n] == c);
        if !accepted(c) {
            law_style_origin(custom.drop_last(), i);
            if !(i < builtin_styles().len() && prev[i] == builtin_styles()[i]) {
                let k = choose|k: int|
                    0 <= k < custom.drop_last().len() && accepted(custom.drop_last()[k]) && prev[i]
                        == custom.drop_last()[k];
                assert(custom[k] == custom.drop_last()[k]);
            }
        } else {
            match name_index(prev, c.0) {
                Some(idx) => {
                    lemma_name_index_some(prev, c.0);
                    if i == idx {
                        assert(styles_after(custom)[i] == c);
                    } else {
                        law_style_origin(custom.drop_last(), i);
                        if !(i < builtin_styles().len() && prev[i] == builtin_styles()[i]) {
                            let k = choose|k: int|
                                0 <= k < custom.drop_last().len() && accepted(
                                    custom.drop_last()[k],
                                ) && prev[i] == custom.drop_last()[k];
                            assert(custom[k] == custom.drop_last()[k]);
                        }
                    }
                },
                None => {
                    if i == prev.len() {
                        assert(styles_after(custom)[i] == c);
                    } else {
                        law_style_origin(custom.drop_last(), i);
                        if !(i < builtin_styles().len() && prev[i] == builtin_styles()[i]) {
                            let k = choose|k: int|
                                0 <= k < custom.drop_last().len() && accepted(
                                    custom.drop_last()[k],
                                ) && prev[i] == custom.drop_last()[k];
                            assert(custom[k] == custom.drop_last()[k]);
                        }
                    }
                },
            }
        }
    }
}

/// Law: a custom style with the placeholder that no later accepted custom style of
/// the same name follows stands in the list exactly as written, overriding any
/// built-in of its name.
pub proof fn law_last_custom_wins(custom: Seq<StyleView>, k: int)
    requires
        0 <= k < custom.len(),
        accepted(custom[k]),
        forall|j: int| k < j < custom.len() && accepted(custom[j]) ==> custom[j].0 != custom[k].0,
    ensures
        exists|i: int| 0 <= i < styles_after(custom).len() && styles_after(custom)[i] == custom[k],
    decreases custom.len(),
{
    let prev = styles_after(custom.drop_last());
    let c = custom.last();
    let n: int = custom.len() - 1;
    assert(custom[n] == c);
    if k == n {
        match name_index(prev, c.0) {
            Some(idx) => {
                lemma_name_index_some(prev, c.0);
                assert(styles_after(custom)[idx] == c);
            },
            None => {
                assert(styles_after(custom)[prev.len() as int] == c);
            },
        }
    } else {
        assert(custom.drop_last()[k] == custom[k]);
        assert forall|j: int|
            k < j < custom.drop_last().len() && accepted(custom.drop_last()[j]) implies custom.drop_last()[j].0
            != custom.drop_last()[k].0 by {
            assert(custom.drop_last()[j] == custom[j]);
        }
        law_last_custom_wins(custom.drop_last(), k);
        let i = choose|i: int| 0 <= i < prev.len() && prev[i] == custom[k];
        if accepted(c) {
            match name_index(prev, c.0) {
                Some(idx) => {
                    lemma_name_index_some(prev, c.0);
                    assert(idx != i);
                    assert(styles_after(custom)[i] == custom[k]);
                },
                None => {
                    assert(styles_after(custom)[i] == custom[k]);
                },
            }
        } else {
            assert(styles_after(custom)[i] == custom[k]);
        }
    }
}

/// `name` is not the name of a built-in style.
pub open spec fn not_builtin_name(name: Seq<char>) -> bool {
    forall|b: int| 0 <= b < builtin_styles().len() ==> builtin_styles()[b].0 != name
}

/// Applying more custom styles only grows the list, and every style keeps its
/// name and its place.
proof fn lemma_prefix_stable(custom: Seq<StyleView>, m: int)
    requires
        0 <= m <= custom.len(),
    ensures
        styles_after(custom.take(m)).len() <= styles_after(custom).len(),
        forall|p: int|
            0 <= p < styles_after(custom.take(m)).len() ==> #[trigger] styles_after(custom)[p].0
                == styles_after(custom.take(m))[p].0,
    decreases custom.len(),
{
    if m == custom.len() {
        assert(custom.take(m) =~= custom);
    } else {
        lemma_prefix_stable(custom.drop_last(), m);
        assert(custom.drop_last().take(m) =~= custom.take(m));
        let prev = styles_after(custom.drop_last());
        let c = custom.last();
        if accepted(c) {
            match name_index(prev, c.0) {
                Some(i) => {
                    lemma_name_index_some(prev, c.0);
                },
                None => {},
            }
        }
    }
}

/// After an accepted custom style is applied, a style of its name is in the list.
proof fn lemma_applied_name_present(custom: Seq<StyleView>, k: int)
    requires
        0 <= k < custom.len(),
        accepted(custom[k]),
    ensures
        name_index(styles_after(custom.take(k + 1)), custom[k].0) is Some,
{
    let s = custom.take(k + 1);
    assert(s.drop_last() =~= custom.take(k));
    assert(s.last() == custom[k]);
    let prev = styles_after(custom.take(k));
    match name_index(prev, custom[k].0) {
        Some(i) => {
            lemma_name_index_some(prev, custom[k].0);
            assert(styles_after(s)[i].0 == custom[k].0);
        },
        None => {
            assert(styles_after(s)[prev.len() as int].0 == custom[k].0);
        },
    }
    let l = styles_after(s);
    if name_index(l, custom[k].0) is None {
        lemma_name_index_none(l, custom[k].0);
    }
}

/// A name that is no built-in's and no accepted custom style's is not in the list.
proof fn lemma_name_absent(custom: Seq<StyleView>, name: Seq<char>)
    requires
        not_builtin_name(name),
        forall|j: int| 0 <= j < custom.len() && accepted(custom[j]) ==> custom[j].0 != name,
    ensures
        name_index(styles_after(custom), name) is None,
{
    let l = styles_after(custom);
    if name_index(l, name) is Some {
        lemma_name_index_some(l, name);
        let p = name_index(l, name)->0;
        law_builtins_keep_their_place(custom);
        law_style_origin(custom, p);
        if p < builtin_styles().len() {
            assert(l[p].0 == builtin_styles()[p].0);
        }
    }
}

/// Law: custom styles whose names are new are appended after the built-ins in the
/// order in which their names first appear among the accepted custom styles.
pub proof fn law_new_styles_in_first_occurrence_order(custom: Seq<StyleView>, k1: int, k2: int)
    requires
        0 <= k1 < k2 < custom.len(),
        accepted(custom[k1]),
        accepted(custom[k2]),
        custom[k1].0 != custom[k2].0,
        not_builtin_name(custom[k1].0),
        not_builtin_name(custom[k2].0),
        forall|j: int| 0 <= j < k2 && accepted(custom[j]) ==> custom[j].0 != custom[k2].0,
    ensures
        exists|i1: int, i2: int|
            builtin_styles().len() <= i1 < i2 < styles_after(custom).len() && styles_after(
                custom,
            )[i1].0 == custom[k1].0 && styles_after(custom)[i2].0 == custom[k2].0,
{
    let l = styles_after(custom);
    // The first name is in the list once its style has been applied.
    lemma_applied_name_present(custom, k1);
    let l1 = styles_after(custom.take(k1 + 1));
    lemma_name_index_some(l1, custom[k1].0);
    let i1 = name_index(l1, custom[k1].0)->0;
    // The second name is new when its first style comes, so it is appended.
    let before = custom.take(k2);
    assert forall|j: int| 0 <= j < before.len() && accepted(before[j]) implies before[j].0
        != custom[k2].0 by {
        assert(before[j] == custom[j]);
    }
    lemma_name_absent(before, custom[k2].0);
    let s2 = custom.take(k2 + 1);
    assert(s2.drop_last() =~= before);
    assert(s2.last() == custom[k2]);
    let lb = styles_after(before);
    let i2: int = lb.len() as int;
    assert(styles_after(s2)[i2].0 == custom[k2].0);
    // Both keep their places to the end.
    lemma_prefix_stable(before, k1 + 1);
    assert(before.take(k1 + 1) =~= custom.take(k1 + 1));
    lemma_prefix_stable(custom, k2 + 1);
    assert(l[i2].0 == custom[k2].0);
    assert(lb[i1].0 == custom[k1].0);
    lemma_prefix_stable(custom, k2);
    assert(l[i1].0 == custom[k1].0);
    law_builtins_keep_their_place(custom);
    if i1 < builtin_styles().len() {
        assert(l[i1].0 == builtin_styles()[i1].0);
    }
}

/// Law: a custom style whose template holds `{prompt}` anywhere stands in the list
/// exactly as written, unless a later custom style of the same name whose template
/// holds `{prompt}` replaces it.
pub proof fn law_placeholder_template_kept(custom: Seq<StyleView>, k: int)
    requires
        0 <= k < custom.len(),
        contains_sub(custom[k].2, "{prompt}"@),
        forall|j: int|
            k < j < custom.len() && contains_sub(custom[j].2, "{prompt}"@) ==> custom[j].0
                != custom[k].0,
    ensures
        exists|i: int| 0 <= i < styles_after(custom).len() && styles_after(custom)[i] == custom[k],
{
    law_last_custom_wins(custom, k);
}

/// Law: a custom style whose template lacks `{prompt}` leaves the list unchanged.
pub proof fn law_template_without_placeholder_ignored(custom: Seq<StyleView>, c: StyleView)
    requires
        !contains_sub(c.2, "{prompt}"@),
    ensures
        styles_after(custom.push(c)) == styles_after(custom),
{
    assert(custom.push(c).drop_last() =~= custom);
}

/// The placeholder starts the template at position 0.
proof fn lemma_placeholder_at_start(t: Seq<char>)
    requires
        t.len() >= 8,
        t.subrange(0, 8) =~= "{prompt}"@,
    ensures
        contains_sub(t, "{prompt}"@),
{
    reveal_strlit("{prompt}");
    assert(crate::text::occurs_at(t, "{prompt}"@, 0)) by {
        assert(t.skip(0) =~= t);
    }
}

/// Every built-in template holds the `{prompt}` placeholder.
pub proof fn lemma_builtin_templates_accepted(i: int)
    requires
        0 <= i < builtin_styles().len(),
    ensures
        accepted(builtin_styles()[i]),
{
    reveal_strlit("{prompt}");
    let b = builtin_styles();
        if i == 0 {
            reveal_strlit("{prompt}, as a watercolor painting");
            assert(b[i].2.subrange(0, 8) =~= "{prompt}"@);
        }
        if i == 1 {
            reveal_strlit("{prompt}, as an oil painting with visible brushstrokes");
            assert(b[i].2.subrange(0, 8) =~= "{prompt}"@);
        }
        if i == 2 {
            reveal_strlit("{prompt}, as a detailed pencil sketch");
            assert(b[i].2.subrange(0, 8) =~= "{prompt}"@);
        }
        if i == 3 {
            reveal_strlit("{prompt}, as retro pixel art");
            assert(b[i].2.subrange(0, 8) =~= "{prompt}"@);
        }
        if i == 4 {
            reveal_strlit("{prompt}, in anime style");
            assert(b[i].2.subrange(0, 8) =~= "{prompt}"@);
        }
        if i == 5 {
            reveal_strlit("{prompt}, in bold pop art style");
            assert(b[i].2.subrange(0, 8) =~= "{prompt}"@);
        }
        if i == 6 {
            reveal_strlit("{prompt}, in art nouveau style with flowing organic lines");
            assert(b[i].2.subrange(0, 8) =~= "{prompt}"@);
        }
        if i == 7 {
            reveal_strlit("{prompt}, cinematic photography with dramatic lighting");
            assert(b[i].2.subrange(0, 8) =~= "{prompt}"@);
        }
        if i == 8 {
            reveal_strlit("{prompt}, professional portrait photography with shallow depth of field");
            assert(b[i].2.subrange(0, 8) =~= "{prompt}"@);
        }
        if i == 9 {
            reveal_strlit("{prompt}, extreme macro photography with sharp detail");
            assert(b[i].2.subrange(0, 8) =~= "{prompt}"@);
        }
        if i == 10 {
            reveal_strlit("{prompt}, aerial drone photography");
            assert(b[i].2.subrange(0, 8) =~= "{prompt}"@);
        }
        if i == 11 {
            reveal_strlit("{prompt}, studio photography on clean background with controlled lighting");
            assert(b[i].2.subrange(0, 8) =~= "{prompt}"@);
        }
        if i == 12 {
            reveal_strlit("{prompt}, in dark film noir style with high contrast black and white");
            assert(b[i].2.subrange(0, 8) =~= "{prompt}"@);
        }
        if i == 13 {
            reveal_strlit("{prompt}, as a faded vintage photograph with warm tones");
            assert(b[i].2.subrange(0, 8) =~= "{prompt}"@);
        }
    lemma_placeholder_at_start(b[i].2);
}

/// Law: every template in the style list holds the `{prompt}` placeholder, so a
/// styled prompt always carries the user's prompt.
pub proof fn law_templates_hold_placeholder(custom: Seq<StyleView>, i: int)
    requires
        0 <= i < styles_after(custom).len(),
    ensures
        accepted(styles_after(custom)[i]),
{
    law_style_origin(custom, i);
    if i < builtin_styles().len() && styles_after(custom)[i] == builtin_styles()[i] {
        lemma_builtin_templates_accepted(i);
    }
}

} // verus!
