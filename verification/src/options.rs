//! Validation of Google-font requests: turns the raw request fields into a
//! checked option set, against the table of known fonts.
//!
//! Ordered string sets come from the `indexmap` crate and are used through
//! trusted wrappers; everything decided here — which requests are rejected,
//! with which message, and what the accepted options hold — is verified.

use vstd::prelude::*;
use vstd::string::StringExecFns;

verus! {

#[verifier::external_type_specification]
#[verifier::external_body]
#[verifier::reject_recursive_types(K)]
#[verifier::reject_recursive_types(V)]
#[verifier::reject_recursive_types(S)]
pub struct ExIndexMap<K, V, S>(indexmap::IndexMap<K, V, S>);

#[verifier::external_type_specification]
#[verifier::external_body]
#[verifier::reject_recursive_types(T)]
#[verifier::reject_recursive_types(S)]
pub struct ExIndexSet<T, S>(indexmap::IndexSet<T, S>);

/// One requested value or several.
#[derive(Debug, Clone)]
pub enum OneOrManyStrings {
    One(String),
    Many(Vec<String>),
}

/// The argument object of a font request.
#[derive(Debug)]
pub struct NextFontRequestArguments {
    pub weight: Option<OneOrManyStrings>,
    pub style: Option<OneOrManyStrings>,
    pub display: Option<String>,
    pub preload: bool,
    pub axes: Option<Vec<String>>,
    pub fallback: Option<Vec<String>>,
    pub adjust_font_fallback: bool,
    pub variable: Option<Vec<String>>,
    pub subsets: Option<Vec<String>>,
}

/// A font request as the importing module states it.
pub struct NextFontRequest {
    pub import: String,
    pub path: String,
    pub variable_name: String,
    pub arguments: NextFontRequestArguments,
}

/// What the font table knows about one family.
#[derive(Debug, Clone)]
pub struct FontDataEntry {
    pub weights: Vec<String>,
    pub styles: Vec<String>,
}

/// The requested weights: the whole variable range, or a fixed set.
#[derive(Debug)]
pub enum FontWeights {
    Variable,
    Fixed(indexmap::IndexSet<String>),
}

/// A validated option set, ready for a fonts request.
#[derive(Debug)]
pub struct NextFontGoogleOptions {
    pub font_family: String,
    pub weights: FontWeights,
    pub styles: indexmap::IndexSet<String>,
    pub display: String,
    pub preload: bool,
    pub selected_variable_axes: Option<Vec<String>>,
    pub fallback: Option<Vec<String>>,
    pub adjust_font_fallback: bool,
    pub variable: Option<Vec<String>>,
    pub subsets: Option<Vec<String>>,
}

/// Why a request was rejected. `message` renders the exact wording.
#[derive(Debug)]
pub enum FontOptionsError {
    UnknownFont,
    MissingWeight { font_family: String, available: Vec<String> },
    UnexpectedVariable { font_family: String },
    UnknownWeight { weight: String, font_family: String, available: Vec<String> },
    UnknownStyle { style: String, font_family: String, available: Vec<String> },
    InvalidDisplay { display: String, font_family: String },
    AxesWithoutVariable,
}

/// The entries of the font table, keyed by family name.
pub uninterp spec fn font_map_entries(m: indexmap::IndexMap<String, FontDataEntry>) -> Map<
    Seq<char>,
    FontDataEntry,
>;

/// The members of an ordered string set, in insertion order, without
/// duplicates.
pub uninterp spec fn set_elems(s: indexmap::IndexSet<String>) -> Seq<Seq<char>>;

/// Relies on indexmap::IndexMap::get: the entry stored under the key.
#[verifier::external_body]
fn font_map_get(m: &indexmap::IndexMap<String, FontDataEntry>, k: &str) -> (r: Option<
    FontDataEntry,
>)
    ensures
        r == if font_map_entries(*m).contains_key(k@) {
            Some(font_map_entries(*m)[k@])
        } else {
            None::<FontDataEntry>
        },
{
    m.get(k).cloned()
}

/// Relies on indexmap::IndexSet::new; nothing is assumed of the fresh set,
/// its contents are pinned down by the `clear` below.
#[verifier::external_body]
fn string_set_raw() -> indexmap::IndexSet<String> {
    indexmap::IndexSet::new()
}

/// Relies on indexmap::IndexSet::clear: removes every member.
#[verifier::external_body]
fn string_set_clear(s: &mut indexmap::IndexSet<String>)
    ensures
        set_elems(*final(s)) == set_elems(*old(s)).subrange(0, 0),
{
    s.clear();
}

/// An empty ordered string set.
pub fn string_set_new() -> (r: indexmap::IndexSet<String>)
    ensures
        set_elems(r) == Seq::<Seq<char>>::empty(),
{
    let mut s = string_set_raw();
    string_set_clear(&mut s);
    proof {
        assert(set_elems(s) =~= Seq::<Seq<char>>::empty());
    }
    s
}

/// Relies on indexmap::IndexSet::insert: appends the value unless present;
/// returns whether it was new.
#[verifier::external_body]
pub fn string_set_insert(s: &mut indexmap::IndexSet<String>, v: String) -> (r: bool)
    ensures
        set_elems(*final(s)) == if set_elems(*old(s)).contains(v@) {
            set_elems(*old(s))
        } else {
            set_elems(*old(s)).push(v@)
        },
        r == !set_elems(*old(s)).contains(v@),
{
    s.insert(v)
}

/// Relies on indexmap::IndexSet::contains: membership.
#[verifier::external_body]
pub fn string_set_contains(s: &indexmap::IndexSet<String>, v: &str) -> (r: bool)
    ensures
        r == set_elems(*s).contains(v@),
{
    s.contains(v)
}

/// Relies on indexmap::IndexSet::len: the number of members.
#[verifier::external_body]
pub fn string_set_len(s: &indexmap::IndexSet<String>) -> (r: usize)
    ensures
        r == set_elems(*s).len(),
{
    s.len()
}

/// Relies on indexmap::IndexSet::iter: the members, in insertion order.
#[verifier::external_body]
pub fn string_set_to_vec(s: &indexmap::IndexSet<String>) -> (r: Vec<String>)
    ensures
        r@.map_values(|x: String| x@) == set_elems(*s),
{
    s.iter().cloned().collect()
}

/// Relies on str::eq: string slice equality.
#[verifier::external_body]
fn str_eq(a: &str, b: &str) -> (r: bool)
    ensures
        r == (a@ == b@),
{
    a == b
}

/// Relies on str::replace with a one-character pattern: each underscore
/// becomes one space, every other character stays.
#[verifier::external_body]
fn underscores_to_spaces(s: &str) -> (r: String)
    ensures
        r@ == spec_underscores_to_spaces(s@),
{
    s.replace('_', " ")
}

/// Underscores become spaces, character by character.
pub open spec fn spec_underscores_to_spaces(s: Seq<char>) -> Seq<char> {
    s.map_values(
        |c: char|
            if c == '_' {
                ' '
            } else {
                c
            },
    )
}

/// Insertion-ordered de-duplication: what filling an ordered set with these
/// values, in order, leaves in it.
pub open spec fn spec_dedup(s: Seq<Seq<char>>) -> Seq<Seq<char>>
    decreases s.len(),
{
    if s.len() == 0 {
        Seq::<Seq<char>>::empty()
    } else {
        let prev = spec_dedup(s.drop_last());
        if prev.contains(s.last()) {
            prev
        } else {
            prev.push(s.last())
        }
    }
}

/// The values a weight/style argument names, in order.
pub open spec fn spec_one_or_many(w: Option<OneOrManyStrings>) -> Seq<Seq<char>> {
    match w {
        None => Seq::<Seq<char>>::empty(),
        Some(OneOrManyStrings::One(s)) => seq![s@],
        Some(OneOrManyStrings::Many(v)) => v.deep_view(),
    }
}

/// Joining strings with a separator.
pub open spec fn spec_join(items: Seq<Seq<char>>, sep: Seq<char>) -> Seq<char>
    decreases items.len(),
{
    if items.len() == 0 {
        Seq::<char>::empty()
    } else if items.len() == 1 {
        items[0]
    } else {
        spec_join(items.drop_last(), sep) + sep + items.last()
    }
}

/// Join a list of strings with a separator.
pub fn join_strings(items: &Vec<String>, sep: &str) -> (r: String)
    ensures
        r@ == spec_join(items.deep_view(), sep@),
{
    let mut out = String::new();
    let mut i: usize = 0;
    while i < items.len()
        invariant
            i <= items@.len(),
            items.deep_view().len() == items@.len(),
            out@ == spec_join(items.deep_view().subrange(0, i as int), sep@),
        decreases items@.len() - i,
    {
        if i > 0 {
            out.append(sep);
        }
        out.append(items[i].as_str());
        proof {
            let dv = items.deep_view();
            assert(items@[i as int]@ == dv[i as int]);
            assert(dv.subrange(0, i as int + 1).drop_last() =~= dv.subrange(0, i as int));
            assert(dv.subrange(0, i as int + 1).last() == dv[i as int]);
        }
        i = i + 1;
    }
    proof {
        assert(items.deep_view().subrange(0, items@.len() as int) =~= items.deep_view());
    }
    out
}

/// Membership in a list of strings.
fn vec_contains_str(v: &Vec<String>, s: &str) -> (r: bool)
    ensures
        r == v.deep_view().contains(s@),
{
    let mut i: usize = 0;
    while i < v.len()
        invariant
            i <= v@.len(),
            v.deep_view().len() == v@.len(),
            forall|j: int| 0 <= j < i ==> v.deep_view()[j] != s@,
        decreases v@.len() - i,
    {
        proof {
            assert(v@[i as int]@ == v.deep_view()[i as int]);
        }
        if str_eq(v[i].as_str(), s) {
            assert(v.deep_view()[i as int] == s@);
            return true;
        }
        i = i + 1;
    }
    false
}

/// An accepted display value.
pub open spec fn spec_display_allowed(d: Seq<char>) -> bool {
    d == "auto"@ || d == "block"@ || d == "swap"@ || d == "fallback"@ || d == "optional"@
}

/// The weight stage accepts the request.
pub open spec fn spec_weights_ok(requested: Seq<Seq<char>>, allowed: Seq<Seq<char>>) -> bool {
    &&& (requested.len() == 0 ==> allowed.contains("variable"@))
    &&& (requested.contains("variable"@) ==> requested.len() == 1)
    &&& (requested.len() > 0 && !requested.contains("variable"@) ==> forall|j: int|
        0 <= j < requested.len() ==> allowed.contains(#[trigger] requested[j]))
}

/// The requested weights resolve to the whole variable range.
pub open spec fn spec_weights_variable(requested: Seq<Seq<char>>) -> bool {
    requested.len() == 0 || requested.contains("variable"@)
}

/// The styles the options will carry, after defaulting.
pub open spec fn spec_final_styles(requested: Seq<Seq<char>>, available: Seq<Seq<char>>) -> Seq<
    Seq<char>,
> {
    if requested.len() == 0 {
        if available.len() == 1 {
            seq![available[0]]
        } else {
            seq!["normal"@]
        }
    } else {
        requested
    }
}

/// The style stage accepts the request.
pub open spec fn spec_styles_ok(styles: Seq<Seq<char>>, available: Seq<Seq<char>>) -> bool {
    forall|j: int| 0 <= j < styles.len() ==> available.contains(#[trigger] styles[j])
}

/// The display value after defaulting.
pub open spec fn spec_final_display(d: Option<String>) -> Seq<char> {
    match d {
        Some(s) => s@,
        None => "optional"@,
    }
}

/// The axes stage accepts the request: axes may only be selected for
/// variable fonts.
pub open spec fn spec_axes_ok(axes: Option<Vec<String>>, requested_weights: Seq<Seq<char>>) -> bool {
    match axes {
        Some(a) => a@.len() == 0 || spec_weights_variable(requested_weights),
        None => true,
    }
}

/// Fill an ordered set from a weight/style argument.
fn collect_set(w: &Option<OneOrManyStrings>) -> (r: indexmap::IndexSet<String>)
    ensures
        set_elems(r) == spec_dedup(spec_one_or_many(*w)),
{
    let mut s = string_set_new();
    match w {
        Option::None => {},
        Option::Some(OneOrManyStrings::One(one)) => {
            string_set_insert(&mut s, one.clone());
            proof {
                let raw = spec_one_or_many(*w);
                assert(raw =~= seq![one@]);
                assert(raw.drop_last() =~= Seq::<Seq<char>>::empty());
                assert(spec_dedup(raw.drop_last()) =~= Seq::<Seq<char>>::empty());
                assert(!spec_dedup(raw.drop_last()).contains(raw.last()));
                assert(spec_dedup(raw) == spec_dedup(raw.drop_last()).push(raw.last()));
                assert(set_elems(s) =~= spec_dedup(raw));
            }
        },
        Option::Some(OneOrManyStrings::Many(many)) => {
            let mut i: usize = 0;
            while i < many.len()
                invariant
                    i <= many@.len(),
                    many.deep_view().len() == many@.len(),
                    set_elems(s) == spec_dedup(many.deep_view().subrange(0, i as int)),
                decreases many@.len() - i,
            {
                proof {
                    assert(many@[i as int]@ == many.deep_view()[i as int]);
                    assert(many.deep_view().subrange(0, i as int + 1).drop_last()
                        =~= many.deep_view().subrange(0, i as int));
                    assert(many.deep_view().subrange(0, i as int + 1).last() == many.deep_view()[i
                        as int]);
                }
                string_set_insert(&mut s, many[i].clone());
                i = i + 1;
            }
            proof {
                assert(many.deep_view().subrange(0, many@.len() as int) =~= many.deep_view());
            }
        },
    }
    s
}

/// Turn the request fields into options suitable for a fonts request,
/// validating the requested weights, styles, display value and axes
/// against the font table.
///
/// Exactly one outcome applies, checked in this order: unknown family;
/// missing weight (none requested and the family has no variable range);
/// `variable` mixed with explicit weights; a weight the family lacks; a
/// style the family lacks (after defaulting to the single available style,
/// or to `normal`); a display value outside the allowed five; axes
/// selected for a non-variable request. Otherwise the checked options are
/// returned with the remaining fields carried through unchanged.
pub fn options_from_request(
    request: NextFontRequest,
    data: &indexmap::IndexMap<String, FontDataEntry>,
) -> (r: Result<NextFontGoogleOptions, FontOptionsError>)
    ensures
        ({
            let fam = spec_underscores_to_spaces(request.import@);
            let ents = font_map_entries(*data);
            let rw = spec_dedup(spec_one_or_many(request.arguments.weight));
            let rs = spec_dedup(spec_one_or_many(request.arguments.style));
            &&& (!ents.contains_key(fam) <==> r matches Err(FontOptionsError::UnknownFont))
            &&& ents.contains_key(fam) ==> {
                let aw = ents[fam].weights.deep_view();
                let avs = ents[fam].styles.deep_view();
                let st = spec_final_styles(rs, avs);
                let disp = spec_final_display(request.arguments.display);
                &&& ((rw.len() == 0 && !aw.contains("variable"@)) <==> (r matches Err(
                    FontOptionsError::MissingWeight { font_family, available },
                ) && font_family@ == fam && available.deep_view() == aw))
                &&& ((rw.contains("variable"@) && rw.len() > 1) <==> (r matches Err(
                    FontOptionsError::UnexpectedVariable { font_family },
                ) && font_family@ == fam))
                &&& (r matches Err(FontOptionsError::UnknownWeight {
                    weight,
                    font_family,
                    available,
                }) ==> (rw.contains(weight@) && !aw.contains(weight@) && font_family@ == fam
                    && available.deep_view() == aw))
                &&& ((rw.len() > 0 && !rw.contains("variable"@) && !spec_weights_ok(rw, aw))
                    <==> r matches Err(FontOptionsError::UnknownWeight { weight, font_family, available }))
                &&& (r matches Err(FontOptionsError::UnknownStyle {
                    style,
                    font_family,
                    available,
                }) ==> (st.contains(style@) && !avs.contains(style@) && font_family@ == fam
                    && available.deep_view() == avs))
                &&& ((spec_weights_ok(rw, aw) && !spec_styles_ok(st, avs)) <==> r matches Err(
                    FontOptionsError::UnknownStyle { style, font_family, available },
                ))
                &&& (r matches Err(FontOptionsError::InvalidDisplay { display, font_family }) ==> (
                !spec_display_allowed(disp) && display@ == disp && font_family@ == fam))
                &&& ((spec_weights_ok(rw, aw) && spec_styles_ok(st, avs)
                    && !spec_display_allowed(disp)) <==> r matches Err(
                    FontOptionsError::InvalidDisplay { display, font_family },
                ))
                &&& (r matches Err(FontOptionsError::AxesWithoutVariable) ==> !spec_axes_ok(
                    request.arguments.axes,
                    rw,
                ))
                &&& ((spec_weights_ok(rw, aw) && spec_styles_ok(st, avs) && spec_display_allowed(
                    disp,
                ) && !spec_axes_ok(request.arguments.axes, rw)) <==> r matches Err(
                    FontOptionsError::AxesWithoutVariable,
                ))
                &&& ((spec_weights_ok(rw, aw) && spec_styles_ok(st, avs) && spec_display_allowed(
                    disp,
                ) && spec_axes_ok(request.arguments.axes, rw)) <==> r is Ok)
                &&& (r matches Ok(o) ==> {
                    &&& o.font_family@ == fam
                    &&& (spec_weights_variable(rw) ==> o.weights is Variable)
                    &&& (!spec_weights_variable(rw) ==> (o.weights matches FontWeights::Fixed(ws)
                        && set_elems(ws) == rw))
                    &&& set_elems(o.styles) == st
                    &&& o.display@ == disp
                    &&& o.preload == request.arguments.preload
                    &&& o.selected_variable_axes == request.arguments.axes
                    &&& o.fallback == request.arguments.fallback
                    &&& o.adjust_font_fallback == request.arguments.adjust_font_fallback
                    &&& o.variable == request.arguments.variable
                    &&& o.subsets == request.arguments.subsets
                })
            }
        }),
{
    // the imported symbol separates words with underscores
    let font_family = underscores_to_spaces(request.import.as_str());
    let ghost fam = spec_underscores_to_spaces(request.import@);
    let font_data = match font_map_get(data, font_family.as_str()) {
        Option::Some(e) => e,
        Option::None => {
            return Result::Err(FontOptionsError::UnknownFont);
        },
    };
    let requested_weights = collect_set(&request.arguments.weight);
    let mut styles = collect_set(&request.arguments.style);
    let ghost rw = spec_dedup(spec_one_or_many(request.arguments.weight));
    let ghost rs = spec_dedup(spec_one_or_many(request.arguments.style));
    let ghost aw = font_data.weights.deep_view();
    let ghost avs = font_data.styles.deep_view();
    proof {
        assert(font_map_entries(*data).contains_key(fam));
        assert(font_data == font_map_entries(*data)[fam]);
    }
    let weights: FontWeights = if string_set_len(&requested_weights) == 0 {
        if !vec_contains_str(&font_data.weights, "variable") {
            return Result::Err(
                FontOptionsError::MissingWeight {
                    font_family,
                    available: font_data.weights,
                },
            );
        }
        FontWeights::Variable
    } else if string_set_contains(&requested_weights, "variable") {
        if string_set_len(&requested_weights) > 1 {
            return Result::Err(FontOptionsError::UnexpectedVariable { font_family });
        }
        FontWeights::Variable
    } else {
        let wlist = string_set_to_vec(&requested_weights);
        let n = wlist.len();
        proof {
            assert(wlist@.map_values(|x: String| x@).len() == wlist@.len());
        }
        let mut i: usize = 0;
        while i < n
            invariant
                n == wlist@.len(),
                wlist@.map_values(|x: String| x@) == rw,
                rw.len() == n,
                i <= n,
                set_elems(requested_weights) == rw,
                fam == spec_underscores_to_spaces(request.import@),
                font_family@ == fam,
                font_map_entries(*data).contains_key(fam),
                font_data == font_map_entries(*data)[fam],
                rw == spec_dedup(spec_one_or_many(request.arguments.weight)),
                aw == font_data.weights.deep_view(),
                rw.len() > 0,
                !rw.contains("variable"@),
                forall|j: int| 0 <= j < i ==> aw.contains(#[trigger] rw[j]),
            decreases n - i,
        {
            let w = wlist[i].clone();
            proof {
                assert(wlist@.map_values(|x: String| x@)[i as int] == wlist@[i as int]@);
                assert(w@ == rw[i as int]);
            }
            if !vec_contains_str(&font_data.weights, w.as_str()) {
                proof {
                    assert(rw.contains(rw[i as int]));
                    assert(!spec_weights_ok(rw, aw));
                }
                return Result::Err(
                    FontOptionsError::UnknownWeight {
                        weight: w,
                        font_family,
                        available: font_data.weights,
                    },
                );
            }
            i = i + 1;
        }
        FontWeights::Fixed(requested_weights)
    };
    proof {
        assert(spec_weights_ok(rw, aw));
        assert(weights is Variable <==> spec_weights_variable(rw));
    }
    if string_set_len(&styles) == 0 {
        if font_data.styles.len() == 1 {
            string_set_insert(&mut styles, font_data.styles[0].clone());
            proof {
                assert(font_data.styles@[0]@ == font_data.styles.deep_view()[0]);
                assert(set_elems(styles) =~= seq![font_data.styles.deep_view()[0]]);
            }
        } else {
            string_set_insert(&mut styles, String::from_str("normal"));
            proof {
                assert(set_elems(styles) =~= seq!["normal"@]);
            }
        }
    }
    let ghost st = set_elems(styles);
    proof {
        assert(st == spec_final_styles(rs, avs));
    }
    let slist = string_set_to_vec(&styles);
    let n_styles = slist.len();
    proof {
        assert(slist@.map_values(|x: String| x@).len() == slist@.len());
    }
    let mut si: usize = 0;
    while si < n_styles
        invariant
            n_styles == slist@.len(),
            slist@.map_values(|x: String| x@) == st,
            st.len() == n_styles,
            si <= n_styles,
            set_elems(styles) == st,
            fam == spec_underscores_to_spaces(request.import@),
            font_family@ == fam,
            font_map_entries(*data).contains_key(fam),
            font_data == font_map_entries(*data)[fam],
            rw == spec_dedup(spec_one_or_many(request.arguments.weight)),
            rs == spec_dedup(spec_one_or_many(request.arguments.style)),
            aw == font_data.weights.deep_view(),
            avs == font_data.styles.deep_view(),
            st == spec_final_styles(rs, avs),
            spec_weights_ok(rw, aw),
            weights is Variable <==> spec_weights_variable(rw),
            weights matches FontWeights::Fixed(ws) ==> set_elems(ws) == rw,
            forall|j: int| 0 <= j < si ==> avs.contains(#[trigger] st[j]),
        decreases n_styles - si,
    {
        let sname = slist[si].clone();
        proof {
            assert(slist@.map_values(|x: String| x@)[si as int] == slist@[si as int]@);
            assert(sname@ == st[si as int]);
        }
        if !vec_contains_str(&font_data.styles, sname.as_str()) {
            proof {
                assert(st.contains(st[si as int]));
                assert(!spec_styles_ok(st, avs));
            }
            return Result::Err(
                FontOptionsError::UnknownStyle {
                    style: sname,
                    font_family,
                    available: font_data.styles,
                },
            );
        }
        si = si + 1;
    }
    proof {
        assert(spec_styles_ok(st, avs));
    }
    let display: String = match request.arguments.display {
        Option::Some(d) => d,
        Option::None => String::from_str("optional"),
    };
    proof {
        assert(display@ == spec_final_display(request.arguments.display));
    }
    let allowed_display = str_eq(display.as_str(), "auto") || str_eq(display.as_str(), "block")
        || str_eq(display.as_str(), "swap") || str_eq(display.as_str(), "fallback") || str_eq(
        display.as_str(),
        "optional",
    );
    if !allowed_display {
        return Result::Err(FontOptionsError::InvalidDisplay { display, font_family });
    }
    let axes_selected = match &request.arguments.axes {
        Option::Some(a) => a.len() > 0,
        Option::None => false,
    };
    let weights_variable = match &weights {
        FontWeights::Variable => true,
        FontWeights::Fixed(_) => false,
    };
    if axes_selected && !weights_variable {
        proof {
            assert(!spec_axes_ok(request.arguments.axes, rw));
        }
        return Result::Err(FontOptionsError::AxesWithoutVariable);
    }
    proof {
        assert(spec_axes_ok(request.arguments.axes, rw));
    }
    Result::Ok(
        NextFontGoogleOptions {
            font_family,
            weights,
            styles,
            display,
            preload: request.arguments.preload,
            selected_variable_axes: request.arguments.axes,
            fallback: request.arguments.fallback,
            adjust_font_fallback: request.arguments.adjust_font_fallback,
            variable: request.arguments.variable,
            subsets: request.arguments.subsets,
        },
    )
}


/// The exact wording of each rejection.
pub open spec fn spec_message(e: FontOptionsError) -> Seq<char> {
    match e {
        FontOptionsError::UnknownFont => "Unknown font"@,
        FontOptionsError::MissingWeight { font_family, available } => "Missing weight for "@
            + font_family@ + ". Available weights: "@ + spec_join(available.deep_view(), ", "@),
        FontOptionsError::UnexpectedVariable { font_family } =>
        "Unexpected `variable` in weight array for font "@ + font_family@
            + ". You only need `variable`, it includes all available weights."@,
        FontOptionsError::UnknownWeight { weight, font_family, available } => "Unknown weight "@
            + weight@ + " for font "@ + font_family@ + ".\nAvailable weights: "@ + spec_join(
            available.deep_view(),
            ", "@,
        ),
        FontOptionsError::UnknownStyle { style, font_family, available } => "Unknown style "@
            + style@ + " for font "@ + font_family@ + ".\nAvailable styles: "@ + spec_join(
            available.deep_view(),
            ", "@,
        ),
        FontOptionsError::InvalidDisplay { display, font_family } => "Invalid display value "@
            + display@ + " for font "@ + font_family@
            + ".\nAvailable display values: auto, block, swap, fallback, optional"@,
        FontOptionsError::AxesWithoutVariable => "Axes can only be defined for variable fonts"@,
    }
}

impl FontOptionsError {
    /// Render the rejection exactly as its message.
    pub fn message(&self) -> (r: String)
        ensures
            r@ == spec_message(*self),
    {
        match self {
            FontOptionsError::UnknownFont => String::from_str("Unknown font"),
            FontOptionsError::MissingWeight { font_family, available } => {
                let mut out = String::from_str("Missing weight for ");
                out.append(font_family.as_str());
                out.append(". Available weights: ");
                let joined = join_strings(available, ", ");
                out.append(joined.as_str());
                out
            },
            FontOptionsError::UnexpectedVariable { font_family } => {
                let mut out = String::from_str("Unexpected `variable` in weight array for font ");
                out.append(font_family.as_str());
                out.append(". You only need `variable`, it includes all available weights.");
                out
            },
            FontOptionsError::UnknownWeight { weight, font_family, available } => {
                let mut out = String::from_str("Unknown weight ");
                out.append(weight.as_str());
                out.append(" for font ");
                out.append(font_family.as_str());
                out.append(".\nAvailable weights: ");
                let joined = join_strings(available, ", ");
                out.append(joined.as_str());
                out
            },
            FontOptionsError::UnknownStyle { style, font_family, available } => {
                let mut out = String::from_str("Unknown style ");
                out.append(style.as_str());
                out.append(" for font ");
                out.append(font_family.as_str());
                out.append(".\nAvailable styles: ");
                let joined = join_strings(available, ", ");
                out.append(joined.as_str());
                out
            },
            FontOptionsError::InvalidDisplay { display, font_family } => {
                let mut out = String::from_str("Invalid display value ");
                out.append(display.as_str());
                out.append(" for font ");
                out.append(font_family.as_str());
                out.append(
                    ".\nAvailable display values: auto, block, swap, fallback, optional",
                );
                out
            },
            FontOptionsError::AxesWithoutVariable => String::from_str(
                "Axes can only be defined for variable fonts",
            ),
        }
    }
}


} // verus!
