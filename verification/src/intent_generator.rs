//! Intent templates and the enumeration of the initial seed corpus: each
//! template yields one seed per action/category combination.

use vstd::prelude::*;
use vstd::string::StrSliceExecFns;
use vstd::string::StringExecFns;
use crate::intent_input::IntentInput;
use crate::intent_input::MimeType;
use crate::intent_input::ReceiverType;
use crate::text::find_at;
use crate::text::find_char_at;

verus! {

/// A template for the intents of one receiver, as loaded from a template
/// file: the receiver kind, the `package/class` component, the candidate
/// actions and categories, and the known extra keys with their type tags.
#[derive(Clone, Debug)]
pub struct IntentTemplate {
    pub receiver_type: ReceiverType,
    pub component: String,
    pub actions: Vec<String>,
    pub categories: Vec<String>,
    pub known_extras_keys: Vec<(String, String)>,
}

pub open spec fn max1(n: int) -> int {
    if n < 1 {
        1
    } else {
        n
    }
}

/// The text before the first slash of the component.
pub open spec fn spec_package_name(component: Seq<char>) -> Seq<char> {
    let i = find_at(component, 0, '/');
    if i < 0 {
        component
    } else {
        component.take(i)
    }
}

/// The text between the first slash and the next slash (or the end).
pub open spec fn spec_class_name(component: Seq<char>) -> Seq<char> {
    let i = find_at(component, 0, '/');
    let j = find_at(component, i + 1, '/');
    if j < 0 {
        component.skip(i + 1)
    } else {
        component.subrange(i + 1, j)
    }
}

/// The number of seeds a template yields.
pub open spec fn spec_template_intents(t: IntentTemplate) -> int {
    t.actions@.len() * max1(t.categories@.len() as int)
}

/// A template whose component names a class: it holds a slash.
pub open spec fn template_wf(t: IntentTemplate) -> bool {
    find_at(t.component@, 0, '/') >= 0
}

/// The seed that template `t` yields at index `k`: the action cycles
/// through the action list, the category steps forward every full action
/// cycle and is empty once the categories run out; everything else takes
/// its default.
pub open spec fn intent_matches(t: IntentTemplate, k: int, i: IntentInput) -> bool {
    let ai = k % (t.actions@.len() as int);
    let ci = k / max1(t.actions@.len() as int);
    &&& i.receiver_type == t.receiver_type
    &&& i.component_package@ == spec_package_name(t.component@)
    &&& i.component_class@ == spec_class_name(t.component@)
    &&& i.action@ == t.actions@[ai]@
    &&& i.category@ == (if ci < t.categories@.len() {
        t.categories@[ci]@
    } else {
        Seq::<char>::empty()
    })
    &&& i.data is None
    &&& i.mime_type == MimeType::TextPlain
    &&& i.flags == 0
    &&& i.extras@.len() == 0
}

impl IntentTemplate {
    /// The package part of the component, the text before the first slash.
    pub fn package_name(&self) -> (r: String)
        ensures
            r@ == spec_package_name(self.component@),
    {
        match find_char_at(self.component.as_str(), 0, '/') {
            Some(i) => self.component.as_str().substring_char(0, i).to_owned(),
            None => self.component.clone(),
        }
    }

    /// The class part of the component, the text after the first slash.
    pub fn class_name(&self) -> (r: String)
        requires
            template_wf(*self),
        ensures
            r@ == spec_class_name(self.component@),
    {
        let s = self.component.as_str();
        let i = match find_char_at(s, 0, '/') {
            Some(i) => i,
            None => 0,
        };
        let len = s.unicode_len();
        match find_char_at(s, i + 1, '/') {
            Some(j) => s.substring_char(i + 1, j).to_owned(),
            None => s.substring_char(i + 1, len).to_owned(),
        }
    }

    /// How many seeds this template yields: one per action, times the
    /// number of categories (at least one round even without categories).
    pub fn number_of_intents(&self) -> (r: usize)
        requires
            spec_template_intents(*self) <= usize::MAX,
        ensures
            r == spec_template_intents(*self),
    {
        let cats = if self.categories.len() < 1 {
            1
        } else {
            self.categories.len()
        };
        self.actions.len() * cats
    }

    /// The seed at index `index` of this template's enumeration.
    pub fn get_intent_input_for_index(&self, index: usize) -> (r: IntentInput)
        requires
            template_wf(*self),
            self.actions@.len() > 0,
        ensures
            intent_matches(*self, index as int, r),
    {
        let action_index = index % self.actions.len();
        let denom = if self.actions.len() < 1 {
            1
        } else {
            self.actions.len()
        };
        let category_index = index / denom;
        let category = if category_index < self.categories.len() {
            let c: &String = &self.categories[category_index];
            c.clone()
        } else {
            String::new()
        };
        let a: &String = &self.actions[action_index];
        IntentInput {
            receiver_type: self.receiver_type,
            action: a.clone(),
            category,
            component_package: self.package_name(),
            component_class: self.class_name(),
            data: None,
            mime_type: MimeType::TextPlain,
            flags: 0,
            extras: Vec::new(),
        }
    }
}

/// The templates kept when a directory of templates is loaded: those whose
/// receiver is an activity, in order.
pub open spec fn keep_activities(ts: Seq<IntentTemplate>) -> Seq<IntentTemplate>
    decreases ts.len(),
{
    if ts.len() == 0 {
        Seq::<IntentTemplate>::empty()
    } else {
        (if ts[0].receiver_type == ReceiverType::Activity {
            seq![ts[0]]
        } else {
            Seq::<IntentTemplate>::empty()
        }) + keep_activities(ts.skip(1))
    }
}

/// The total seed count over a template list.
pub open spec fn total_intents(ts: Seq<IntentTemplate>) -> int
    decreases ts.len(),
{
    if ts.len() == 0 {
        0
    } else {
        total_intents(ts.drop_last()) + spec_template_intents(ts.last())
    }
}

/// Where seed `k` of the whole enumeration falls: the template position and
/// the index within that template, or nothing when `k` runs past the end.
pub open spec fn locate_intent(ts: Seq<IntentTemplate>, k: int) -> Option<(int, int)>
    decreases ts.len(),
{
    if ts.len() == 0 || k < 0 {
        Option::None
    } else if k < spec_template_intents(ts[0]) {
        Option::Some((0, k))
    } else {
        match locate_intent(ts.skip(1), k - spec_template_intents(ts[0])) {
            Option::Some(p) => Option::Some((p.0 + 1, p.1)),
            Option::None => Option::None,
        }
    }
}

/// Enumerates starting intents from loaded templates, one seed at a time.
#[derive(Debug)]
pub struct IntentGenerator {
    pub templates: Vec<IntentTemplate>,
    pub read_count: u32,
}

impl IntentGenerator {
    /// Builds a generator from templates loaded out of a directory: only
    /// activity templates are kept, and at least one must remain.
    pub fn from_directory_templates(all: Vec<IntentTemplate>) -> (r: Option<IntentGenerator>)
        ensures
            match r {
                Option::Some(g) => g.templates@ == keep_activities(all@) && g.templates@.len() > 0
                    && g.read_count == 0,
                Option::None => keep_activities(all@).len() == 0,
            },
{
        let ghost orig = all@;
        let mut all = all;
        let mut kept: Vec<IntentTemplate> = Vec::new();
        proof {
            assert(orig.skip(orig.len() as int) =~= Seq::<IntentTemplate>::empty());
        }
        while all.len() > 0
            invariant
                all@.len() <= orig.len(),
                all@ == orig.take(all@.len() as int),
                kept@ == keep_activities(orig.skip(all@.len() as int)),
            decreases all@.len(),
        {
            let ghost i = all@.len() - 1;
            let t = match all.pop() {
                Some(t) => t,
                None => {
                    return None;
                },
            };
            proof {
                assert(t == orig[i]);
            }
            let is_activity = match t.receiver_type {
                ReceiverType::Activity => true,
                _ => false,
            };
            if is_activity {
                kept.insert(0, t);
            }
            proof {
                assert(orig.skip(i).skip(1) =~= orig.skip(i + 1));
                assert(orig.skip(i)[0] == orig[i]);
                assert(kept@ =~= keep_activities(orig.skip(i)));
                assert(all@ =~= orig.take(i));
            }
        }
        proof {
            assert(orig.skip(0) =~= orig);
        }
        if kept.len() == 0 {
            None
        } else {
            Some(IntentGenerator { templates: kept, read_count: 0 })
        }
    }

    /// Builds a generator from a single template file; the template is kept
    /// whatever its receiver kind.
    pub fn from_single_template(t: IntentTemplate) -> (r: IntentGenerator)
        ensures
            r.templates@ == seq![t],
            r.read_count == 0,
    {
        let mut templates: Vec<IntentTemplate> = Vec::new();
        templates.push(t);
        proof {
            assert(templates@ =~= seq![t]);
        }
        IntentGenerator { templates, read_count: 0 }
    }

    /// The total number of base intents over all templates.
    pub fn number_of_intents(&self) -> (r: usize)
        requires
            total_intents(self.templates@) <= usize::MAX,
            forall|k: int|
                0 <= k < self.templates@.len() ==> spec_template_intents(#[trigger] self.templates@[k])
                    <= usize::MAX,
        ensures
            r == total_intents(self.templates@),
    {
        let mut acc: usize = 0;
        let mut i: usize = 0;
        proof {
            assert(self.templates@.take(0) =~= Seq::<IntentTemplate>::empty());
            lemma_total_prefix(self.templates@, 0);
        }
        while i < self.templates.len()
            invariant
                i <= self.templates@.len(),
                acc == total_intents(self.templates@.take(i as int)),
                total_intents(self.templates@) <= usize::MAX,
                forall|k: int|
                    0 <= k < self.templates@.len() ==> spec_template_intents(
                        #[trigger] self.templates@[k],
                    ) <= usize::MAX,
            decreases self.templates@.len() - i,
        {
            let t: &IntentTemplate = &self.templates[i];
            proof {
                lemma_total_prefix(self.templates@, i + 1);
                assert(self.templates@.take(i + 1).drop_last() =~= self.templates@.take(i as int));
                assert(self.templates@.take(i + 1).last() == self.templates@[i as int]);
                lemma_total_nonneg(self.templates@.take(i as int));
            }
            acc = acc + t.number_of_intents();
            i += 1;
        }
        proof {
            assert(self.templates@.take(self.templates@.len() as int) =~= self.templates@);
        }
        acc
    }

    /// The package name of the first template.
    pub fn package_name(&self) -> (r: String)
        requires
            self.templates@.len() > 0,
        ensures
            r@ == spec_package_name(self.templates@[0].component@),
    {
        let t: &IntentTemplate = &self.templates[0];
        t.package_name()
    }

    /// Whether the coverage channel should run in synchronization mode:
    /// activity targets wait for delivery.
    pub fn enable_synchronization(&self) -> (r: bool)
        requires
            self.templates@.len() > 0,
        ensures
            r == (self.templates@[0].receiver_type == ReceiverType::Activity),
    {
        let t: &IntentTemplate = &self.templates[0];
        match t.receiver_type {
            ReceiverType::Activity => true,
            _ => false,
        }
    }

    /// Whether the first template's receiver kind can be dispatched at all.
    pub fn is_supported(&self) -> (r: bool)
        requires
            self.templates@.len() > 0,
        ensures
            r == (self.templates@[0].receiver_type == ReceiverType::Activity
                || self.templates@[0].receiver_type == ReceiverType::BroadcastReceiver),
    {
        let t: &IntentTemplate = &self.templates[0];
        match t.receiver_type {
            ReceiverType::Activity => true,
            ReceiverType::BroadcastReceiver => true,
            _ => false,
        }
    }

    /// Yields the next seed of the enumeration and advances the counter,
    /// or nothing once every seed has been handed out.
    pub fn generate(&mut self) -> (r: Option<IntentInput>)
        requires
            old(self).read_count < u32::MAX,
            forall|k: int|
                0 <= k < old(self).templates@.len() ==> template_wf(
                    #[trigger] old(self).templates@[k],
                ),
            forall|k: int|
                0 <= k < old(self).templates@.len() ==> spec_template_intents(
                    #[trigger] old(self).templates@[k],
                ) <= usize::MAX,
        ensures
            final(self).templates == old(self).templates,
            final(self).read_count == old(self).read_count + 1,
            (locate_intent(old(self).templates@, old(self).read_count as int) matches
                Option::Some(p) ==> (r matches Option::Some(i) && intent_matches(
                old(self).templates@[p.0],
                p.1,
                i,
            ))),
            (locate_intent(old(self).templates@, old(self).read_count as int) is None ==> r
                is None),
{
        let ghost ts = self.templates@;
        let ghost k0 = self.read_count as int;
        let mut remaining: usize = self.read_count as usize;
        let mut idx: usize = 0;
        proof {
            assert(ts.skip(0) =~= ts);
        }
        while idx < self.templates.len()
            invariant
                self.templates == old(self).templates,
                self.read_count == old(self).read_count,
                old(self).read_count < u32::MAX,
                k0 == old(self).read_count as int,
                self.templates@ == ts,
                idx <= ts.len(),
                locate_intent(ts, k0) == (match locate_intent(
                    ts.skip(idx as int),
                    remaining as int,
                ) {
                    Option::Some(p) => Option::Some((p.0 + idx as int, p.1)),
                    Option::None => Option::<(int, int)>::None,
                }),
                forall|k: int| 0 <= k < ts.len() ==> template_wf(#[trigger] ts[k]),
                forall|k: int|
                    0 <= k < ts.len() ==> spec_template_intents(#[trigger] ts[k]) <= usize::MAX,
            decreases ts.len() - idx,
        {
            let t: &IntentTemplate = &self.templates[idx];
            let n = t.number_of_intents();
            proof {
                assert(ts.skip(idx as int)[0] == ts[idx as int]);
                assert(ts.skip(idx as int).skip(1) =~= ts.skip(idx + 1));
            }
            if remaining < n {
                proof {
                    assert(t.actions@.len() > 0) by (nonlinear_arith)
                        requires
                            spec_template_intents(*t) > 0,
                            max1(t.categories@.len() as int) >= 1,
                            spec_template_intents(*t) == t.actions@.len() * max1(
                                t.categories@.len() as int,
                            ),
                    ;
                }
                let seed = t.get_intent_input_for_index(remaining);
                self.read_count = self.read_count + 1;
                proof {
                    assert(locate_intent(ts.skip(idx as int), remaining as int) matches
                        Option::Some(p) && p.0 == 0 && p.1 == remaining as int);
                    assert(locate_intent(ts, k0) matches Option::Some(p) && p.0 == idx as int
                        && p.1 == remaining as int);
                    assert(*t == ts[idx as int]);
                    assert(intent_matches(ts[idx as int], remaining as int, seed));
                }
                return Some(seed);
            }
            remaining = remaining - n;
            idx += 1;
        }
        proof {
            assert(ts.skip(ts.len() as int) =~= Seq::<IntentTemplate>::empty());
        }
        self.read_count = self.read_count + 1;
        None
    }
}

proof fn lemma_total_nonneg(ts: Seq<IntentTemplate>)
    ensures
        total_intents(ts) >= 0,
    decreases ts.len(),
{
    if ts.len() > 0 {
        lemma_total_nonneg(ts.drop_last());
        assert(spec_template_intents(ts.last()) >= 0) by (nonlinear_arith);
    }
}

proof fn lemma_total_prefix(ts: Seq<IntentTemplate>, i: int)
    requires
        0 <= i <= ts.len(),
    ensures
        total_intents(ts.take(i)) <= total_intents(ts),
    decreases ts.len() - i,
{
    if i < ts.len() {
        lemma_total_prefix(ts, i + 1);
        assert(ts.take(i + 1).drop_last() =~= ts.take(i));
        assert(ts.take(i + 1).last() == ts[i]);
        assert(spec_template_intents(ts[i]) >= 0) by (nonlinear_arith);
    } else {
        assert(ts.take(i) =~= ts);
    }
}

} // verus!
