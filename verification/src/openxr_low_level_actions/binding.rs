//! The declaration of action sets, written before the runtime exists.
//!
//! A configuration is a list of action sets. A set has a name and a list
//! of actions; an action has a type, a name, and for each interaction
//! profile the list of input paths it is bound to. The builders nest as the
//! data does: a set is opened on the configuration, an action on the set, a
//! profile on the action, and each `finish` hands back the level above.
//! Every step takes its builder by value, so a configuration that was
//! handed out is never changed behind its owner's back.

use vstd::prelude::*;
use vstd::string::StringSliceAdditionalSpecFns;
use vstd::utf8::encode_utf8_decode_utf8;

verus! {

/// The type of value that an action yields.
#[derive(Clone, Copy, Debug, PartialEq, Eq, Structural)]
pub enum SuisOxrActionType {
    Bool,
    F32,
    Vec2,
    Space,
}

/// Tells whether two strings hold the same characters.
fn same_text(a: &str, b: &str) -> (r: bool)
    ensures
        r == (a@ == b@),
{
    let x = a.as_bytes();
    let y = b.as_bytes();
    proof {
        encode_utf8_decode_utf8(a@);
        encode_utf8_decode_utf8(b@);
    }
    if x.len() != y.len() {
        return false;
    }
    let mut i: usize = 0;
    while i < x.len()
        invariant
            i <= x.len(),
            x.len() == y.len(),
            x@ == a.spec_bytes(),
            y@ == b.spec_bytes(),
            forall|j: int| 0 <= j < i ==> x@[j] == y@[j],
        decreases x.len() - i,
    {
        if x[i] != y[i] {
            return false;
        }
        i += 1;
    }
    assert(x@ =~= y@);
    true
}

/// The characters of each string of a list.
pub open spec fn texts(list: Seq<&'static str>) -> Seq<Seq<char>> {
    list.map_values(|s: &'static str| s@)
}

/// The model of an action's declaration.
pub struct SuisOxrBindingActionView {
    pub action_type: SuisOxrActionType,
    pub name: Seq<char>,
    pub localized_name: Seq<char>,
    /// The interaction profiles that have bindings, in the order in which
    /// each got its first.
    pub profiles: Seq<Seq<char>>,
    /// The input paths bound under each profile, in the order in which they
    /// were added.
    pub bindings: Map<Seq<char>, Seq<Seq<char>>>,
}

impl SuisOxrBindingActionView {
    /// `profiles` lists the profiles that `bindings` knows, each once.
    pub open spec fn wf(self) -> bool {
        &&& self.profiles.no_duplicates()
        &&& self.profiles.to_set() == self.bindings.dom()
    }

    /// The declaration with `path` added to the bindings of `profile`.
    pub open spec fn add_binding(self, profile: Seq<char>, path: Seq<char>) -> Self {
        if self.bindings.contains_key(profile) {
            SuisOxrBindingActionView {
                bindings: self.bindings.insert(profile, self.bindings[profile].push(path)),
                ..self
            }
        } else {
            SuisOxrBindingActionView {
                profiles: self.profiles.push(profile),
                bindings: self.bindings.insert(profile, seq![path]),
                ..self
            }
        }
    }
}

/// The declaration of one action.
pub struct SuisOxrBindingAction {
    action_type: SuisOxrActionType,
    name: &'static str,
    localized_name: &'static str,
    profiles: Vec<&'static str>,
    paths: Vec<Vec<&'static str>>,
}

impl View for SuisOxrBindingAction {
    type V = SuisOxrBindingActionView;

    closed spec fn view(&self) -> SuisOxrBindingActionView {
        SuisOxrBindingActionView {
            action_type: self.action_type,
            name: self.name@,
            localized_name: self.localized_name@,
            profiles: texts(self.profiles@),
            bindings: Map::new(
                |p: Seq<char>| texts(self.profiles@).contains(p),
                |p: Seq<char>| texts(self.paths@[texts(self.profiles@).index_of(p)]@),
            ),
        }
    }
}

impl SuisOxrBindingAction {
    #[verifier::type_invariant]
    spec fn inv(self) -> bool {
        &&& self.profiles.len() == self.paths.len()
        &&& texts(self.profiles@).no_duplicates()
    }

    /// An action of the given type and names, bound to nothing yet.
    pub(crate) fn new(
        action_type: SuisOxrActionType,
        name: &'static str,
        localized_name: &'static str,
    ) -> (r: Self)
        ensures
            r@ == (SuisOxrBindingActionView {
                action_type,
                name: name@,
                localized_name: localized_name@,
                profiles: Seq::<Seq<char>>::empty(),
                bindings: Map::<Seq<char>, Seq<Seq<char>>>::empty(),
            }),
            r@.wf(),
    {
        let r = SuisOxrBindingAction {
            action_type,
            name,
            localized_name,
            profiles: Vec::new(),
            paths: Vec::new(),
        };
        proof {
            assert(r@.profiles =~= Seq::<Seq<char>>::empty());
            assert(r@.bindings =~= Map::<Seq<char>, Seq<Seq<char>>>::empty());
            assert(r@.profiles.to_set() =~= r@.bindings.dom());
        }
        r
    }

    /// The type of value that the action yields.
    pub fn action_type(&self) -> (r: SuisOxrActionType)
        ensures
            r == self@.action_type,
    {
        self.action_type
    }

    /// The name by which the runtime knows the action.
    pub fn name(&self) -> (r: &'static str)
        ensures
            r@ == self@.name,
    {
        self.name
    }

    /// The name that a person is shown.
    pub fn localized_name(&self) -> (r: &'static str)
        ensures
            r@ == self@.localized_name,
    {
        self.localized_name
    }

    /// The number of interaction profiles that have bindings.
    pub fn profile_count(&self) -> (n: usize)
        ensures
            self@.wf(),
            n == self@.profiles.len(),
    {
        proof {
            use_type_invariant(self);
            self.lemma_wf();
        }
        self.profiles.len()
    }

    /// The `i`-th interaction profile that has bindings.
    pub fn profile_at(&self, i: usize) -> (r: &'static str)
        requires
            i < self@.profiles.len(),
        ensures
            r@ == self@.profiles[i as int],
    {
        self.profiles[i]
    }

    /// The input paths bound under the `i`-th interaction profile.
    pub fn paths_at(&self, i: usize) -> (r: &Vec<&'static str>)
        requires
            i < self@.profiles.len(),
        ensures
            self@.bindings.contains_key(self@.profiles[i as int]),
            texts(r@) == self@.bindings[self@.profiles[i as int]],
    {
        proof {
            use_type_invariant(self);
            let p = texts(self.profiles@)[i as int];
            assert(texts(self.profiles@).contains(p));
            let k = texts(self.profiles@).index_of(p);
            assert(texts(self.profiles@)[k] == p);
        }
        &self.paths[i]
    }

    /// The place of `profile` among the profiles that have bindings.
    pub fn find_profile(&self, profile: &str) -> (r: Option<usize>)
        ensures
            match r {
                Some(i) => i < self@.profiles.len() && self@.profiles[i as int] == profile@,
                None => !self@.bindings.contains_key(profile@),
            },
    {
        let mut i: usize = 0;
        while i < self.profiles.len()
            invariant
                i <= self.profiles.len(),
                forall|j: int| 0 <= j < i ==> texts(self.profiles@)[j] != profile@,
            decreases self.profiles.len() - i,
        {
            if same_text(self.profiles[i], profile) {
                return Some(i);
            }
            i += 1;
        }
        None
    }

    /// Adds `path` to the bindings of `profile`.
    pub(crate) fn add_binding(&mut self, profile: &'static str, path: &'static str)
        ensures
            final(self)@ == old(self)@.add_binding(profile@, path@),
            final(self)@.wf(),
    {
        proof {
            use_type_invariant(&*self);
            old(self).lemma_wf();
        }
        let ghost before = *self;
        match self.find_profile(profile) {
            Some(i) => {
                self.paths[i].push(path);
                proof {
                    let p = texts(self.profiles@)[i as int];
                    assert(texts(self.profiles@).contains(p));
                    assert(texts(self.profiles@).index_of(p) == i);
                    assert(texts(self.paths@[i as int]@) =~= texts(before.paths@[i as int]@).push(
                        path@,
                    ));
                    assert forall|q: Seq<char>| #[trigger]
                        self@.bindings.contains_key(q) && q != p implies self@.bindings[q]
                        == before@.bindings[q] by {
                        let k = texts(self.profiles@).index_of(q);
                        assert(texts(self.profiles@)[k] == q);
                        assert(k != i);
                    }
                    assert(self@.bindings =~= before@.add_binding(profile@, path@).bindings);
                }
            },
            None => {
                let mut fresh: Vec<&'static str> = Vec::new();
                fresh.push(path);
                let mut taken = SuisOxrBindingAction::new(
                    self.action_type,
                    self.name,
                    self.localized_name,
                );
                std::mem::swap(self, &mut taken);
                let SuisOxrBindingAction { action_type, name, localized_name, mut profiles, mut paths } =
                    taken;
                profiles.push(profile);
                paths.push(fresh);
                proof {
                    assert(texts(profiles@) =~= texts(before.profiles@).push(profile@));
                    assert(!texts(before.profiles@).contains(profile@));
                }
                *self = SuisOxrBindingAction { action_type, name, localized_name, profiles, paths };
                proof {
                    let n = before.profiles@.len() as int;
                    assert(texts(fresh@) =~= seq![path@]);
                    assert forall|q: Seq<char>| #[trigger]
                        self@.bindings.contains_key(q) <==> before@.add_binding(
                            profile@,
                            path@,
                        ).bindings.contains_key(q) by {
                        if texts(before.profiles@).contains(q) {
                            let k = texts(before.profiles@).index_of(q);
                            assert(texts(before.profiles@)[k] == q);
                            assert(texts(self.profiles@)[k] == q);
                        }
                        if texts(self.profiles@).contains(q) {
                            let k = texts(self.profiles@).index_of(q);
                            assert(texts(self.profiles@)[k] == q);
                            if k < n {
                                assert(texts(before.profiles@)[k] == q);
                            }
                        }
                        if q == profile@ {
                            assert(texts(self.profiles@)[n] == q);
                        }
                    }
                    assert forall|q: Seq<char>| #[trigger]
                        self@.bindings.contains_key(q) implies self@.bindings[q]
                        == before@.add_binding(profile@, path@).bindings[q] by {
                        let k = texts(self.profiles@).index_of(q);
                        assert(texts(self.profiles@)[k] == q);
                        if q == profile@ {
                            assert(texts(self.profiles@)[n] == q);
                            assert(k == n);
                        } else {
                            let k0 = texts(before.profiles@).index_of(q);
                            assert(texts(before.profiles@)[k0] == q);
                            assert(texts(self.profiles@)[k0] == q);
                            assert(k == k0);
                        }
                    }
                    assert(self@.bindings =~= before@.add_binding(profile@, path@).bindings);
                }
            },
        }
        proof {
            self.lemma_wf();
        }
    }

    /// The declaration of an action that was built here is well formed.
    proof fn lemma_wf(&self)
        requires
            self.profiles.len() == self.paths.len(),
            texts(self.profiles@).no_duplicates(),
        ensures
            self@.wf(),
    {
        assert(self@.profiles.to_set() =~= self@.bindings.dom());
    }
}

/// The views of a list of action declarations.
pub open spec fn action_views(list: Seq<SuisOxrBindingAction>) -> Seq<SuisOxrBindingActionView> {
    list.map_values(|a: SuisOxrBindingAction| a@)
}

/// The model of an action set's declaration.
pub struct SuisOxrBindingSetView {
    pub name: Seq<char>,
    pub localized_name: Seq<char>,
    pub actions: Seq<SuisOxrBindingActionView>,
}

/// The declaration of one action set.
pub struct SuisOxrBindingSet {
    name: &'static str,
    localized_name: &'static str,
    actions: Vec<SuisOxrBindingAction>,
}

impl View for SuisOxrBindingSet {
    type V = SuisOxrBindingSetView;

    closed spec fn view(&self) -> SuisOxrBindingSetView {
        SuisOxrBindingSetView {
            name: self.name@,
            localized_name: self.localized_name@,
            actions: action_views(self.actions@),
        }
    }
}

impl SuisOxrBindingSet {
    /// A set of the given names, without actions.
    pub(crate) fn new(name: &'static str, localized_name: &'static str) -> (r: Self)
        ensures
            r@ == (SuisOxrBindingSetView {
                name: name@,
                localized_name: localized_name@,
                actions: Seq::<SuisOxrBindingActionView>::empty(),
            }),
    {
        let r = SuisOxrBindingSet { name, localized_name, actions: Vec::new() };
        assert(r@.actions =~= Seq::<SuisOxrBindingActionView>::empty());
        r
    }

    /// The name by which the runtime knows the set.
    pub fn name(&self) -> (r: &'static str)
        ensures
            r@ == self@.name,
    {
        self.name
    }

    /// The name that a person is shown.
    pub fn localized_name(&self) -> (r: &'static str)
        ensures
            r@ == self@.localized_name,
    {
        self.localized_name
    }

    /// The number of actions declared.
    pub fn action_count(&self) -> (n: usize)
        ensures
            n == self@.actions.len(),
    {
        self.actions.len()
    }

    /// The `i`-th action declared.
    pub fn action_at(&self, i: usize) -> (r: &SuisOxrBindingAction)
        requires
            i < self@.actions.len(),
        ensures
            r@ == self@.actions[i as int],
            r@.wf(),
    {
        let r = &self.actions[i];
        let _ = r.profile_count();
        r
    }

    /// Declares one more action, behind the others.
    pub(crate) fn push_action(&mut self, action: SuisOxrBindingAction)
        ensures
            final(self)@ == (SuisOxrBindingSetView {
                actions: old(self)@.actions.push(action@),
                ..old(self)@
            }),
    {
        self.actions.push(action);
        assert(self@.actions =~= old(self)@.actions.push(action@));
    }

    /// Takes the first action out of the declaration.
    pub(crate) fn take_first_action(&mut self) -> (r: Option<SuisOxrBindingAction>)
        ensures
            match r {
                Some(action) => old(self)@.actions.len() > 0 && action@ == old(self)@.actions[0]
                    && action@.wf() && final(self)@ == (SuisOxrBindingSetView {
                    actions: old(self)@.actions.drop_first(),
                    ..old(self)@
                }),
                None => old(self)@.actions.len() == 0 && final(self)@ == old(self)@,
            },
    {
        if self.actions.len() == 0 {
            None
        } else {
            let action = self.actions.remove(0);
            let _ = action.profile_count();
            assert(self@.actions =~= old(self)@.actions.drop_first());
            Some(action)
        }
    }
}

/// The views of a list of action set declarations.
pub open spec fn set_views(list: Seq<SuisOxrBindingSet>) -> Seq<SuisOxrBindingSetView> {
    list.map_values(|s: SuisOxrBindingSet| s@)
}

/// A binding configuration: the action sets that are to be created, in
/// the order in which they were declared. Its model is the list of their
/// views.
pub struct SuisOxrBindings {
    sets: Vec<SuisOxrBindingSet>,
}

impl View for SuisOxrBindings {
    type V = Seq<SuisOxrBindingSetView>;

    closed spec fn view(&self) -> Seq<SuisOxrBindingSetView> {
        set_views(self.sets@)
    }
}

impl Default for SuisOxrBindings {
    /// The configuration that declares nothing.
    fn default() -> (r: Self)
        ensures
            r@ == Seq::<SuisOxrBindingSetView>::empty(),
    {
        let r = SuisOxrBindings { sets: Vec::new() };
        assert(r@ =~= Seq::<SuisOxrBindingSetView>::empty());
        r
    }
}

impl SuisOxrBindings {
    /// Opens the declaration of one more action set.
    pub fn add_set(self, name: &'static str, pretty_name: &'static str) -> (r:
        SuisOxrBindingSetBuilder)
        ensures
            r@ == (SuisOxrBindingSetBuilderView {
                bindings: self@,
                set: SuisOxrBindingSetView {
                    name: name@,
                    localized_name: pretty_name@,
                    actions: Seq::<SuisOxrBindingActionView>::empty(),
                },
            }),
    {
        SuisOxrBindingSetBuilder { bindings: self, set: SuisOxrBindingSet::new(name, pretty_name) }
    }

    /// The number of action sets declared.
    pub fn set_count(&self) -> (n: usize)
        ensures
            n == self@.len(),
    {
        self.sets.len()
    }

    /// The `i`-th action set declared.
    pub fn set_at(&self, i: usize) -> (r: &SuisOxrBindingSet)
        requires
            i < self@.len(),
        ensures
            r@ == self@[i as int],
    {
        &self.sets[i]
    }

    /// Takes the whole configuration and leaves the empty one: what was
    /// declared can be handed on once, and whoever asks again gets nothing.
    pub fn take(&mut self) -> (r: Self)
        ensures
            r@ == old(self)@,
            final(self)@ == Seq::<SuisOxrBindingSetView>::empty(),
    {
        let mut taken = SuisOxrBindings::default();
        std::mem::swap(self, &mut taken);
        taken
    }

    /// Takes the first action set out of the configuration.
    pub(crate) fn take_first_set(&mut self) -> (r: Option<SuisOxrBindingSet>)
        ensures
            match r {
                Some(set) => old(self)@.len() > 0 && set@ == old(self)@[0] && final(self)@ == old(
                    self,
                )@.drop_first(),
                None => old(self)@.len() == 0 && final(self)@ == old(self)@,
            },
    {
        if self.sets.len() == 0 {
            None
        } else {
            let set = self.sets.remove(0);
            assert(self@ =~= old(self)@.drop_first());
            Some(set)
        }
    }
}

/// The model of a set builder: the configuration it was opened on and the
/// set it is building.
pub struct SuisOxrBindingSetBuilderView {
    pub bindings: Seq<SuisOxrBindingSetView>,
    pub set: SuisOxrBindingSetView,
}

/// Builds one action set.
pub struct SuisOxrBindingSetBuilder {
    bindings: SuisOxrBindings,
    set: SuisOxrBindingSet,
}

impl View for SuisOxrBindingSetBuilder {
    type V = SuisOxrBindingSetBuilderView;

    closed spec fn view(&self) -> SuisOxrBindingSetBuilderView {
        SuisOxrBindingSetBuilderView { bindings: self.bindings@, set: self.set@ }
    }
}

/// The declaration of an action that has no bindings yet.
pub open spec fn unbound_action(
    action_type: SuisOxrActionType,
    name: Seq<char>,
    localized_name: Seq<char>,
) -> SuisOxrBindingActionView {
    SuisOxrBindingActionView {
        action_type,
        name,
        localized_name,
        profiles: Seq::<Seq<char>>::empty(),
        bindings: Map::<Seq<char>, Seq<Seq<char>>>::empty(),
    }
}

impl SuisOxrBindingSetBuilder {
    /// Opens the declaration of an action of the given type.
    fn add_action(
        self,
        action_type: SuisOxrActionType,
        name: &'static str,
        pretty_name: &'static str,
    ) -> (r: SuisOxrBindingActionBuilder)
        ensures
            r@ == (SuisOxrBindingActionBuilderView {
                set_builder: self@,
                action: unbound_action(action_type, name@, pretty_name@),
            }),
    {
        SuisOxrBindingActionBuilder {
            set_builder: self,
            action: SuisOxrBindingAction::new(action_type, name, pretty_name),
        }
    }

    /// Opens the declaration of an action that is on or off.
    pub fn add_action_bool(self, name: &'static str, pretty_name: &'static str) -> (r:
        SuisOxrBindingActionBuilder)
        ensures
            r@ == (SuisOxrBindingActionBuilderView {
                set_builder: self@,
                action: unbound_action(SuisOxrActionType::Bool, name@, pretty_name@),
            }),
    {
        self.add_action(SuisOxrActionType::Bool, name, pretty_name)
    }

    /// Opens the declaration of an action that yields one number.
    pub fn add_action_f32(self, name: &'static str, pretty_name: &'static str) -> (r:
        SuisOxrBindingActionBuilder)
        ensures
            r@ == (SuisOxrBindingActionBuilderView {
                set_builder: self@,
                action: unbound_action(SuisOxrActionType::F32, name@, pretty_name@),
            }),
    {
        self.add_action(SuisOxrActionType::F32, name, pretty_name)
    }

    /// Opens the declaration of an action that yields a pair of numbers.
    pub fn add_action_vec2(self, name: &'static str, pretty_name: &'static str) -> (r:
        SuisOxrBindingActionBuilder)
        ensures
            r@ == (SuisOxrBindingActionBuilderView {
                set_builder: self@,
                action: unbound_action(SuisOxrActionType::Vec2, name@, pretty_name@),
            }),
    {
        self.add_action(SuisOxrActionType::Vec2, name, pretty_name)
    }

    /// Opens the declaration of an action that yields a pose, from which
    /// tracking spaces are made.
    pub fn add_action_xr_space(self, name: &'static str, pretty_name: &'static str) -> (r:
        SuisOxrBindingActionBuilder)
        ensures
            r@ == (SuisOxrBindingActionBuilderView {
                set_builder: self@,
                action: unbound_action(SuisOxrActionType::Space, name@, pretty_name@),
            }),
    {
        self.add_action(SuisOxrActionType::Space, name, pretty_name)
    }

    /// Closes the set: the configuration gets it behind the sets it had,
    /// which stay as they were.
    pub fn finish(self) -> (r: SuisOxrBindings)
        ensures
            r@ == self@.bindings.push(self@.set),
    {
        let SuisOxrBindingSetBuilder { mut bindings, set } = self;
        bindings.sets.push(set);
        assert(bindings@ =~= self@.bindings.push(self@.set));
        bindings
    }
}

/// The model of an action builder: the set builder it was opened on and
/// the action it is building.
pub struct SuisOxrBindingActionBuilderView {
    pub set_builder: SuisOxrBindingSetBuilderView,
    pub action: SuisOxrBindingActionView,
}

/// Builds one action.
pub struct SuisOxrBindingActionBuilder {
    set_builder: SuisOxrBindingSetBuilder,
    action: SuisOxrBindingAction,
}

impl View for SuisOxrBindingActionBuilder {
    type V = SuisOxrBindingActionBuilderView;

    closed spec fn view(&self) -> SuisOxrBindingActionBuilderView {
        SuisOxrBindingActionBuilderView { set_builder: self.set_builder@, action: self.action@ }
    }
}

impl SuisOxrBindingActionBuilder {
    /// Opens the bindings of the action under one interaction profile. The
    /// action is not changed until a binding is added.
    pub fn add_profile_bindings(self, interaction_profile: &'static str) -> (r:
        SuisOxrBindingActionProfileBuilder)
        ensures
            r@ == (SuisOxrBindingActionProfileBuilderView {
                action_builder: self@,
                profile: interaction_profile@,
            }),
    {
        SuisOxrBindingActionProfileBuilder { action_builder: self, profile: interaction_profile }
    }

    /// Closes the action: the set gets it behind the actions it had.
    pub fn finish(self) -> (r: SuisOxrBindingSetBuilder)
        ensures
            r@ == (SuisOxrBindingSetBuilderView {
                bindings: self@.set_builder.bindings,
                set: SuisOxrBindingSetView {
                    actions: self@.set_builder.set.actions.push(self@.action),
                    ..self@.set_builder.set
                },
            }),
    {
        let SuisOxrBindingActionBuilder { mut set_builder, action } = self;
        set_builder.set.push_action(action);
        set_builder
    }
}

/// The model of a profile builder: the action builder it was opened on and
/// the interaction profile it binds under.
pub struct SuisOxrBindingActionProfileBuilderView {
    pub action_builder: SuisOxrBindingActionBuilderView,
    pub profile: Seq<char>,
}

/// Binds one action under one interaction profile.
pub struct SuisOxrBindingActionProfileBuilder {
    action_builder: SuisOxrBindingActionBuilder,
    profile: &'static str,
}

impl View for SuisOxrBindingActionProfileBuilder {
    type V = SuisOxrBindingActionProfileBuilderView;

    closed spec fn view(&self) -> SuisOxrBindingActionProfileBuilderView {
        SuisOxrBindingActionProfileBuilderView {
            action_builder: self.action_builder@,
            profile: self.profile@,
        }
    }
}

impl SuisOxrBindingActionProfileBuilder {
    /// Binds the action to the input path `path` under the builder's profile.
    pub fn add_binding(self, path: &'static str) -> (r: Self)
        ensures
            r@ == (SuisOxrBindingActionProfileBuilderView {
                action_builder: SuisOxrBindingActionBuilderView {
                    action: self@.action_builder.action.add_binding(self@.profile, path@),
                    ..self@.action_builder
                },
                ..self@
            }),
    {
        let SuisOxrBindingActionProfileBuilder { mut action_builder, profile } = self;
        action_builder.action.add_binding(profile, path);
        SuisOxrBindingActionProfileBuilder { action_builder, profile }
    }

    /// Closes the profile and hands back the action builder.
    pub fn finish(self) -> (r: SuisOxrBindingActionBuilder)
        ensures
            r@ == self@.action_builder,
    {
        self.action_builder
    }
}

} // verus!
