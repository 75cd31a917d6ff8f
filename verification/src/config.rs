//! The rules that map a display name to an icon.

use crate::text::{
    chars_of, contains, is_substring, lowercase, range_is, slice_of, text_of, to_lowercase,
};
use vstd::prelude::*;

verus! {

/// One way a rule may go: an icon for the names that hold `sub_match`.
/// A variant without a sub-match, or with the sub-match `default`, is the
/// rule's fallback.
#[derive(Debug, PartialEq, Eq)]
pub struct Variant {
    pub sub_match: Option<String>,
    pub icon: String,
}

/// What a rule resolves to: one icon, or a choice among variants.
#[derive(Debug, PartialEq, Eq)]
pub enum IconOrVariants {
    Icon(String),
    Variants(Vec<Variant>),
}

/// A rule: the names that hold `match_key` get their icon from `resolution`.
#[derive(Debug, PartialEq, Eq)]
pub struct Rule {
    pub match_key: String,
    pub resolution: IconOrVariants,
}

/// The rules, in the order in which they are tried.
#[derive(Debug, PartialEq, Eq)]
pub struct Config {
    pub apps: Vec<Rule>,
}

/// A variant, as the contracts speak of it.
pub struct VariantView {
    pub sub_match: Option<Seq<char>>,
    pub icon: Seq<char>,
}

/// A resolution, as the contracts speak of it.
pub enum ResolutionView {
    Icon(Seq<char>),
    Variants(Seq<VariantView>),
}

/// A rule, as the contracts speak of it.
pub struct RuleView {
    pub match_key: Seq<char>,
    pub resolution: ResolutionView,
}

impl View for Variant {
    type V = VariantView;

    open spec fn view(&self) -> VariantView {
        VariantView { sub_match: text_of(self.sub_match), icon: self.icon@ }
    }
}

impl View for IconOrVariants {
    type V = ResolutionView;

    open spec fn view(&self) -> ResolutionView {
        match self {
            IconOrVariants::Icon(icon) => ResolutionView::Icon(icon@),
            IconOrVariants::Variants(variants) => ResolutionView::Variants(
                variants@.map_values(|v: Variant| v@),
            ),
        }
    }
}

impl View for Rule {
    type V = RuleView;

    open spec fn view(&self) -> RuleView {
        RuleView { match_key: self.match_key@, resolution: self.resolution@ }
    }
}

impl View for Config {
    type V = Seq<RuleView>;

    open spec fn view(&self) -> Seq<RuleView> {
        self.apps@.map_values(|r: Rule| r@)
    }
}

/// Whether a variant is its rule's fallback: it has no sub-match, or its
/// sub-match is `default`, spelled so.
pub open spec fn is_fallback(v: VariantView) -> bool {
    match v.sub_match {
        None => true,
        Some(s) => s == "default"@,
    }
}

/// A key as it is compared: in lowercase where `fold` is set, else as written.
pub open spec fn keyed(key: Seq<char>, fold: bool) -> Seq<char> {
    if fold {
        lowercase(key)
    } else {
        key
    }
}

/// The icon of the first variant, fallbacks aside, whose sub-match occurs in `name`.
pub open spec fn first_variant(variants: Seq<VariantView>, name: Seq<char>, fold: bool) -> Option<
    Seq<char>,
>
    decreases variants.len(),
{
    if variants.len() == 0 {
        None
    } else if !is_fallback(variants.first()) && is_substring(
        keyed(variants.first().sub_match->0, fold),
        name,
    ) {
        Some(variants.first().icon)
    } else {
        first_variant(variants.drop_first(), name, fold)
    }
}

/// The icon of the last fallback among the variants.
pub open spec fn last_fallback(variants: Seq<VariantView>) -> Option<Seq<char>>
    decreases variants.len(),
{
    if variants.len() == 0 {
        None
    } else if is_fallback(variants.last()) {
        Some(variants.last().icon)
    } else {
        last_fallback(variants.drop_last())
    }
}

/// The icon that a rule gives to a name that its key matched: the first
/// variant that applies, else the fallback, else none.
pub open spec fn pick(resolution: ResolutionView, name: Seq<char>, fold: bool) -> Option<
    Seq<char>,
> {
    match resolution {
        ResolutionView::Icon(icon) => Some(icon),
        ResolutionView::Variants(variants) => match first_variant(variants, name, fold) {
            Some(icon) => Some(icon),
            None => last_fallback(variants),
        },
    }
}

/// The icon for `name` under `rules`: the first rule whose key occurs in the
/// name decides, also where it gives no icon. Match keys and sub-matches are
/// compared in lowercase where `fold` is set, else as written; which variant
/// is a fallback goes by the sub-match as written either way.
pub open spec fn select(rules: Seq<RuleView>, name: Seq<char>, fold: bool) -> Option<Seq<char>>
    decreases rules.len(),
{
    if rules.len() == 0 {
        None
    } else if is_substring(keyed(rules.first().match_key, fold), name) {
        pick(rules.first().resolution, name, fold)
    } else {
        select(rules.drop_first(), name, fold)
    }
}

/// The icon for the display name `name` under `rules`, case ignored: the
/// name, the match keys and the sub-matches are compared in lowercase.
pub open spec fn resolve(rules: Seq<RuleView>, name: Seq<char>) -> Option<Seq<char>> {
    select(rules, lowercase(name), true)
}

/// The characters of a key as it is compared.
fn key_chars(key: &str, fold: bool) -> (chars: Vec<char>)
    ensures
        chars@ == keyed(key@, fold),
{
    if fold {
        let lowered = to_lowercase(key);
        chars_of(lowered.as_str())
    } else {
        chars_of(key)
    }
}

impl Variant {
    /// Whether the variant is its rule's fallback.
    pub fn is_fallback(&self) -> (b: bool)
        ensures
            b == is_fallback(self@),
    {
        match &self.sub_match {
            None => true,
            Some(s) => {
                let chars = chars_of(s.as_str());
                let word = chars_of("default");
                assert(chars@.subrange(0, chars@.len() as int) =~= chars@);
                range_is(&chars, 0, chars.len(), &word)
            },
        }
    }
}

impl IconOrVariants {
    /// The icon for a name that the rule's key matched.
    fn pick<'a>(&'a self, name: &Vec<char>, fold: bool) -> (icon: Option<&'a str>)
        ensures
            slice_of(icon) == pick(self@, name@, fold),
    {
        match self {
            IconOrVariants::Icon(icon) => Some(icon.as_str()),
            IconOrVariants::Variants(variants) => {
                let ghost all = variants@.map_values(|v: Variant| v@);
                let mut fallback: Option<&'a str> = None;
                let mut i: usize = 0;
                assert(all.skip(0) =~= all);
                while i < variants.len()
                    invariant
                        i <= variants.len(),
                        self@ == ResolutionView::Variants(all),
                        all == variants@.map_values(|v: Variant| v@),
                        first_variant(all, name@, fold) == first_variant(
                            all.skip(i as int),
                            name@,
                            fold,
                        ),
                        slice_of(fallback) == last_fallback(all.take(i as int)),
                    decreases variants.len() - i,
                {
                    let ghost rest = all.skip(i as int);
                    assert(rest.first() == variants[i as int]@);
                    assert(rest.drop_first() =~= all.skip(i + 1));
                    assert(all.take(i + 1).drop_last() =~= all.take(i as int));
                    assert(all.take(i + 1).last() == variants[i as int]@);
                    if variants[i].is_fallback() {
                        fallback = Some(variants[i].icon.as_str());
                    } else if let Some(sub_match) = &variants[i].sub_match {
                        let sub = key_chars(sub_match.as_str(), fold);
                        if contains(name, &sub) {
                            return Some(variants[i].icon.as_str());
                        }
                    }
                    i += 1;
                }
                assert(all.take(i as int) =~= all);
                fallback
            },
        }
    }
}

impl Config {
    /// The icon of the first rule whose key occurs in `name`.
    fn search<'a>(&'a self, name: &Vec<char>, fold: bool) -> (icon: Option<&'a str>)
        ensures
            slice_of(icon) == select(self@, name@, fold),
    {
        let ghost all = self@;
        let mut i: usize = 0;
        assert(all.skip(0) =~= all);
        while i < self.apps.len()
            invariant
                i <= self.apps.len(),
                all == self@,
                select(all, name@, fold) == select(all.skip(i as int), name@, fold),
            decreases self.apps.len() - i,
        {
            let ghost rest = all.skip(i as int);
            assert(rest.drop_first() =~= all.skip(i + 1));
            assert(rest.first() == self.apps[i as int]@);
            let key = key_chars(self.apps[i].match_key.as_str(), fold);
            if contains(name, &key) {
                return self.apps[i].resolution.pick(name, fold);
            }
            i += 1;
        }
        None
    }

    /// The icon for `name` as `icon_name_for` finds it, but with keys and
    /// name compared as they stand.
    pub fn select<'a>(&'a self, name: &str) -> (icon: Option<&'a str>)
        ensures
            slice_of(icon) == select(self@, name@, false),
    {
        let chars = chars_of(name);
        self.search(&chars, false)
    }

    /// The icon for the display name `name`, case ignored: keys and name are
    /// compared in lowercase. The first rule whose key occurs in the name
    /// decides. Of its variants the first whose sub-match occurs in the name
    /// gives the icon, else its fallback; where it has neither, the name gets
    /// no icon, and no later rule is tried. A variant is a fallback where it
    /// has no sub-match, or the sub-match `default`, spelled so.
    pub fn icon_name_for<'a>(&'a self, name: &str) -> (icon: Option<&'a str>)
        ensures
            slice_of(icon) == resolve(self@, name@),
    {
        let lowered = to_lowercase(name);
        let chars = chars_of(lowered.as_str());
        self.search(&chars, true)
    }
}

} // verus!
