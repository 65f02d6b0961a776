//! Runtime actions: their declaration, their creation and their state from
//! frame to frame.
//!
//! The runtime itself is not called from here. Paths, action sets, actions
//! and tracking spaces are the 64-bit handles that the runtime gave out;
//! where the runtime has to be asked for something, a function of this
//! module takes the answer as an argument, or tells the caller what to ask.

use vstd::prelude::*;

use crate::frame_map::FrameRotated;
use crate::openxr_low_level_actions::binding::SuisOxrActionType;
use crate::openxr_low_level_actions::binding::SuisOxrBindingAction;
use crate::openxr_low_level_actions::binding::SuisOxrBindingActionView;
use crate::openxr_low_level_actions::binding::SuisOxrBindingSet;
use crate::openxr_low_level_actions::binding::SuisOxrBindingSetView;
use crate::openxr_low_level_actions::binding::SuisOxrBindings;
use crate::openxr_low_level_actions::binding::texts;
use crate::openxr_low_level_actions::space_table::drained;
use crate::openxr_low_level_actions::space_table::space_table_contents;
use crate::openxr_low_level_actions::space_table::SuisOxrSpaceTable;

pub mod binding;
pub mod laws;
pub mod space_table;

verus! {

/// The model of an action with a value: its runtime handle and, by input
/// path, the values of the previous frame and those seen in the running one.
pub struct SuisOxrTypedActionView<V> {
    pub action: u64,
    pub last_values: Map<u64, V>,
    pub current_values: Map<u64, V>,
}

impl<V> SuisOxrTypedActionView<V> {
    /// The action as it is just after its creation: nothing seen yet.
    pub open spec fn fresh(action: u64) -> Self {
        SuisOxrTypedActionView {
            action,
            last_values: Map::<u64, V>::empty(),
            current_values: Map::<u64, V>::empty(),
        }
    }

    /// The action after the rotation that starts a frame.
    pub open spec fn clear_last_values(self) -> Self {
        SuisOxrTypedActionView {
            action: self.action,
            last_values: self.current_values,
            current_values: Map::<u64, V>::empty(),
        }
    }

    /// The action after `value` was read at `path`: the first value read at
    /// a path in a frame is the one that the frame keeps.
    pub open spec fn observe(self, path: u64, value: V) -> Self {
        if self.current_values.contains_key(path) {
            self
        } else {
            SuisOxrTypedActionView {
                current_values: self.current_values.insert(path, value),
                ..self
            }
        }
    }
}

/// An action with a value of type `V`, and what was read of it.
pub struct SuisOxrTypedAction<V> {
    action: u64,
    values: FrameRotated<V>,
}

impl<V> View for SuisOxrTypedAction<V> {
    type V = SuisOxrTypedActionView<V>;

    closed spec fn view(&self) -> SuisOxrTypedActionView<V> {
        SuisOxrTypedActionView {
            action: self.action,
            last_values: self.values.previous(),
            current_values: self.values.current(),
        }
    }
}

impl<V: Copy> SuisOxrTypedAction<V> {
    /// The action with the runtime handle `action`, of which nothing was read yet.
    pub fn new(action: u64) -> (r: Self)
        ensures
            r@ == SuisOxrTypedActionView::<V>::fresh(action),
    {
        SuisOxrTypedAction { action, values: FrameRotated::new() }
    }

    /// The runtime handle of the action.
    pub fn action(&self) -> (r: u64)
        ensures
            r == self@.action,
    {
        self.action
    }

    /// Starts a frame: the values seen in the frame that ends become the
    /// last values, those of the frame before it are dropped, and nothing is
    /// seen yet of the new frame. To be called once per frame, before the
    /// frame's first read.
    pub fn clear_last_values(&mut self)
        ensures
            final(self)@ == old(self)@.clear_last_values(),
    {
        self.values.rotate();
    }

    /// Takes in what the runtime answered when it was asked for the state
    /// of the action at `path`, and hands it on.
    ///
    /// A value is handed on as it is, on every call; the first one of a
    /// frame at a path is kept for the next frame's `get_last_value`. An
    /// error is handed on too: nothing stands in for a value that could not
    /// be read, and nothing is kept of it.
    pub fn get_current_value<E>(&mut self, path: u64, state: Result<V, E>) -> (r: Result<V, E>)
        ensures
            r == state,
            final(self)@ == match state {
                Ok(value) => old(self)@.observe(path, value),
                Err(_) => old(self)@,
            },
    {
        match state {
            Ok(value) => {
                self.values.insert_if_absent(path, value);
                Ok(value)
            },
            Err(e) => Err(e),
        }
    }

    /// The value that the previous frame kept for `path`, if it read one.
    pub fn get_last_value(&self, path: u64) -> (r: Option<V>)
        ensures
            r == if self@.last_values.contains_key(path) {
                Some(self@.last_values[path])
            } else {
                None
            },
    {
        match self.values.get_previous(path) {
            Some(v) => Some(*v),
            None => None,
        }
    }
}

/// The model of a pose action: its runtime handle and the tracking space
/// that is live for each input path.
pub struct SuisOxrSpaceActionView {
    pub action: u64,
    pub last_values: Map<u64, u64>,
}

impl SuisOxrSpaceActionView {
    /// The action as it is just after its creation: no space yet.
    pub open spec fn fresh(action: u64) -> Self {
        SuisOxrSpaceActionView { action, last_values: Map::<u64, u64>::empty() }
    }

    /// The action after the new space `space` took the place of `path`.
    pub open spec fn get_space(self, path: u64, space: u64) -> Self {
        SuisOxrSpaceActionView { last_values: self.last_values.insert(path, space), ..self }
    }

    /// The space that has to be destroyed when `space` takes the place of
    /// `path`: the one that held the place, unless it is `space` itself.
    pub open spec fn superseded(self, path: u64, space: u64) -> Option<u64> {
        if self.last_values.contains_key(path) && self.last_values[path] != space {
            Some(self.last_values[path])
        } else {
            None
        }
    }

    /// The action after its spaces were given up.
    pub open spec fn without_spaces(self) -> Self {
        SuisOxrSpaceActionView { last_values: Map::<u64, u64>::empty(), ..self }
    }
}

/// What `get_space` hands back: the space that is now live for the path,
/// and the space that the caller has to destroy, if there is one.
#[derive(Clone, Copy, Debug, PartialEq, Eq)]
pub struct SuisOxrSpaceUpdate {
    pub space: u64,
    pub retired: Option<u64>,
}

/// A pose action and the tracking spaces made from it.
pub struct SuisOxrSpaceAction {
    action: u64,
    last_values: SuisOxrSpaceTable,
}

impl View for SuisOxrSpaceAction {
    type V = SuisOxrSpaceActionView;

    closed spec fn view(&self) -> SuisOxrSpaceActionView {
        SuisOxrSpaceActionView {
            action: self.action,
            last_values: space_table_contents(self.last_values),
        }
    }
}

impl SuisOxrSpaceAction {
    /// The action with the runtime handle `action`, without spaces.
    pub fn new(action: u64) -> (r: Self)
        ensures
            r@ == SuisOxrSpaceActionView::fresh(action),
    {
        SuisOxrSpaceAction { action, last_values: SuisOxrSpaceTable::new() }
    }

    /// The runtime handle of the action.
    pub fn action(&self) -> (r: u64)
        ensures
            r == self@.action,
    {
        self.action
    }

    /// The space that is live for `path`, if there is one.
    pub fn live_space(&self, path: u64) -> (r: Option<u64>)
        ensures
            r == if self@.last_values.contains_key(path) {
                Some(self@.last_values[path])
            } else {
                None
            },
    {
        self.last_values.get(path)
    }

    /// Takes in what the runtime answered when it was asked for a new
    /// tracking space of the action at `path`.
    ///
    /// A new space takes the place of `path`, and the space that held the
    /// place is handed back as `retired`, for the caller to destroy, unless
    /// it is the new space itself. So one space is live per path, and the
    /// space handed back as live is never the one to destroy. Where the
    /// runtime gave an error, the error is handed on and nothing changes.
    pub fn get_space<E>(&mut self, path: u64, created: Result<u64, E>) -> (r: Result<
        SuisOxrSpaceUpdate,
        E,
    >)
        ensures
            match created {
                Ok(space) => {
                    &&& r == Ok::<SuisOxrSpaceUpdate, E>(
                        SuisOxrSpaceUpdate {
                            space,
                            retired: old(self)@.superseded(path, space),
                        },
                    )
                    &&& final(self)@ == old(self)@.get_space(path, space)
                },
                Err(e) => r == Err::<SuisOxrSpaceUpdate, E>(e) && final(self)@ == old(self)@,
            },
    {
        match created {
            Ok(space) => {
                let last_space = self.last_values.insert(path, space);
                let retired = match last_space {
                    Some(last) => if last != space {
                        Some(last)
                    } else {
                        None
                    },
                    None => None,
                };
                Ok(SuisOxrSpaceUpdate { space, retired })
            },
            Err(e) => Err(e),
        }
    }

    /// Gives up every space of the action: the table is left empty, and
    /// the spaces it held are handed back for the caller to destroy, each
    /// once for each path that it stood under.
    pub fn drain_spaces(&mut self) -> (r: Vec<u64>)
        ensures
            final(self)@ == old(self)@.without_spaces(),
            drained(old(self)@.last_values, r@),
    {
        self.last_values.drain()
    }
}

/// The model of a live action of any type.
pub enum SuisOxrActionView<F, V> {
    Bool(SuisOxrTypedActionView<bool>),
    F32(SuisOxrTypedActionView<F>),
    Vec2(SuisOxrTypedActionView<V>),
    Space(SuisOxrSpaceActionView),
}

impl<F, V> SuisOxrActionView<F, V> {
    /// The action of type `action_type` with the runtime handle `action`,
    /// as it is just after its creation.
    pub open spec fn fresh(action_type: SuisOxrActionType, action: u64) -> Self {
        match action_type {
            SuisOxrActionType::Bool => SuisOxrActionView::Bool(
                SuisOxrTypedActionView::fresh(action),
            ),
            SuisOxrActionType::F32 => SuisOxrActionView::F32(SuisOxrTypedActionView::fresh(action)),
            SuisOxrActionType::Vec2 => SuisOxrActionView::Vec2(
                SuisOxrTypedActionView::fresh(action),
            ),
            SuisOxrActionType::Space => SuisOxrActionView::Space(
                SuisOxrSpaceActionView::fresh(action),
            ),
        }
    }

    /// The runtime handle of the action.
    pub open spec fn as_raw(self) -> u64 {
        match self {
            SuisOxrActionView::Bool(a) => a.action,
            SuisOxrActionView::F32(a) => a.action,
            SuisOxrActionView::Vec2(a) => a.action,
            SuisOxrActionView::Space(a) => a.action,
        }
    }

    /// The type of the action.
    pub open spec fn action_type(self) -> SuisOxrActionType {
        match self {
            SuisOxrActionView::Bool(_) => SuisOxrActionType::Bool,
            SuisOxrActionView::F32(_) => SuisOxrActionType::F32,
            SuisOxrActionView::Vec2(_) => SuisOxrActionType::Vec2,
            SuisOxrActionView::Space(_) => SuisOxrActionType::Space,
        }
    }

    /// The action after the rotation that starts a frame. A pose action has
    /// no values to rotate and stays as it is.
    pub open spec fn clear_last_values(self) -> Self {
        match self {
            SuisOxrActionView::Bool(a) => SuisOxrActionView::Bool(a.clear_last_values()),
            SuisOxrActionView::F32(a) => SuisOxrActionView::F32(a.clear_last_values()),
            SuisOxrActionView::Vec2(a) => SuisOxrActionView::Vec2(a.clear_last_values()),
            SuisOxrActionView::Space(a) => SuisOxrActionView::Space(a),
        }
    }

    /// The action after its spaces were given up. Only a pose action has any.
    pub open spec fn without_spaces(self) -> Self {
        match self {
            SuisOxrActionView::Space(a) => SuisOxrActionView::Space(a.without_spaces()),
            _ => self,
        }
    }

    /// The spaces of the action, by input path. Only a pose action has any.
    pub open spec fn spaces(self) -> Map<u64, u64> {
        match self {
            SuisOxrActionView::Space(a) => a.last_values,
            _ => Map::<u64, u64>::empty(),
        }
    }
}

/// A live action. `F` is the type of the value of an action that yields
/// one number, `V` that of an action that yields a pair of numbers.
pub enum SuisOxrAction<F, V> {
    Bool(SuisOxrTypedAction<bool>),
    F32(SuisOxrTypedAction<F>),
    Vec2(SuisOxrTypedAction<V>),
    Space(SuisOxrSpaceAction),
}

impl<F, V> View for SuisOxrAction<F, V> {
    type V = SuisOxrActionView<F, V>;

    open spec fn view(&self) -> SuisOxrActionView<F, V> {
        match self {
            SuisOxrAction::Bool(a) => SuisOxrActionView::Bool(a@),
            SuisOxrAction::F32(a) => SuisOxrActionView::F32(a@),
            SuisOxrAction::Vec2(a) => SuisOxrActionView::Vec2(a@),
            SuisOxrAction::Space(a) => SuisOxrActionView::Space(a@),
        }
    }
}

impl<F: Copy, V: Copy> SuisOxrAction<F, V> {
    /// The runtime handle of the action.
    pub fn as_raw(&self) -> (r: u64)
        ensures
            r == self@.as_raw(),
    {
        match self {
            SuisOxrAction::Bool(v) => v.action(),
            SuisOxrAction::F32(v) => v.action(),
            SuisOxrAction::Vec2(v) => v.action(),
            SuisOxrAction::Space(v) => v.action(),
        }
    }

    /// The type of the action.
    pub fn action_type(&self) -> (r: SuisOxrActionType)
        ensures
            r == self@.action_type(),
    {
        match self {
            SuisOxrAction::Bool(_) => SuisOxrActionType::Bool,
            SuisOxrAction::F32(_) => SuisOxrActionType::F32,
            SuisOxrAction::Vec2(_) => SuisOxrActionType::Vec2,
            SuisOxrAction::Space(_) => SuisOxrActionType::Space,
        }
    }

    /// Starts a frame for the action, whatever its type.
    pub fn clear_last_values(&mut self)
        ensures
            final(self)@ == old(self)@.clear_last_values(),
    {
        match self {
            SuisOxrAction::Bool(a) => a.clear_last_values(),
            SuisOxrAction::F32(a) => a.clear_last_values(),
            SuisOxrAction::Vec2(a) => a.clear_last_values(),
            SuisOxrAction::Space(_) => (),
        }
    }

    /// Gives up the spaces of the action and hands them back for the
    /// caller to destroy. An action that is no pose action has none.
    pub fn drain_spaces(&mut self) -> (r: Vec<u64>)
        ensures
            final(self)@ == old(self)@.without_spaces(),
            drained(old(self)@.spaces(), r@),
    {
        match self {
            SuisOxrAction::Space(a) => a.drain_spaces(),
            _ => {
                let r: Vec<u64> = Vec::new();
                proof {
                    let paths = Seq::<u64>::empty();
                    assert(paths.no_duplicates());
                    assert(paths.to_set() =~= Map::<u64, u64>::empty().dom());
                    assert(r@ =~= paths.map_values(|p: u64| Map::<u64, u64>::empty()[p]));
                }
                r
            },
        }
    }
}

/// The creation of a live action: takes in what the runtime answered when
/// it was asked to create the action that `action` declares, and makes the
/// live action of the declared type around the handle. An error is handed on.
pub fn create_suis_oxr_action<F: Copy, V: Copy, E>(
    action: &SuisOxrBindingAction,
    created: Result<u64, E>,
) -> (r: Result<SuisOxrAction<F, V>, E>)
    ensures
        match created {
            Ok(handle) => r is Ok && r->Ok_0@ == SuisOxrActionView::<F, V>::fresh(
                action@.action_type,
                handle,
            ),
            Err(e) => r is Err && r->Err_0 == e,
        },
{
    match created {
        Ok(handle) => {
            let a = match action.action_type() {
                SuisOxrActionType::Bool => SuisOxrAction::Bool(SuisOxrTypedAction::new(handle)),
                SuisOxrActionType::F32 => SuisOxrAction::F32(SuisOxrTypedAction::new(handle)),
                SuisOxrActionType::Vec2 => SuisOxrAction::Vec2(SuisOxrTypedAction::new(handle)),
                SuisOxrActionType::Space => SuisOxrAction::Space(SuisOxrSpaceAction::new(handle)),
            };
            Ok(a)
        },
        Err(e) => Err(e),
    }
}

/// The views of a list of live actions.
pub open spec fn live_action_views<F, V>(list: Seq<SuisOxrAction<F, V>>) -> Seq<
    SuisOxrActionView<F, V>,
> {
    list.map_values(|a: SuisOxrAction<F, V>| a@)
}

/// The model of a live action set.
pub struct SuisOxrActionSetView<F, V> {
    pub name: Seq<char>,
    pub localized_name: Seq<char>,
    pub active: bool,
    pub set: u64,
    pub actions: Seq<SuisOxrActionView<F, V>>,
}

/// A live action set: its names, whether it takes part in the per-frame
/// sync, its runtime handle, and its live actions.
pub struct SuisOxrActionSet<F, V> {
    pub name: &'static str,
    pub localized_name: &'static str,
    pub active: bool,
    pub set: u64,
    pub actions: Vec<SuisOxrAction<F, V>>,
}

impl<F, V> View for SuisOxrActionSet<F, V> {
    type V = SuisOxrActionSetView<F, V>;

    open spec fn view(&self) -> SuisOxrActionSetView<F, V> {
        SuisOxrActionSetView {
            name: self.name@,
            localized_name: self.localized_name@,
            active: self.active,
            set: self.set,
            actions: live_action_views(self.actions@),
        }
    }
}

impl<F, V> SuisOxrActionSetView<F, V> {
    /// The set after the rotation that starts a frame.
    pub open spec fn clear_last_values(self) -> Self {
        SuisOxrActionSetView {
            actions: self.actions.map_values(|a: SuisOxrActionView<F, V>| a.clear_last_values()),
            ..self
        }
    }

    /// The set after the spaces of its actions were given up.
    pub open spec fn without_spaces(self) -> Self {
        SuisOxrActionSetView {
            actions: self.actions.map_values(|a: SuisOxrActionView<F, V>| a.without_spaces()),
            ..self
        }
    }
}

/// The model of what the creation of one declared set leaves behind.
pub struct SuisOxrCreatedSetView<F, V> {
    pub set: SuisOxrActionSetView<F, V>,
    pub bindings: SuisOxrBindingSetView,
}

/// What the creation of one declared set leaves behind: the live set, and
/// the declaration of the actions that are live in it, action by action
/// in the same order.
pub struct SuisOxrCreatedSet<F, V> {
    pub set: SuisOxrActionSet<F, V>,
    pub bindings: SuisOxrBindingSet,
}

impl<F, V> View for SuisOxrCreatedSet<F, V> {
    type V = SuisOxrCreatedSetView<F, V>;

    open spec fn view(&self) -> SuisOxrCreatedSetView<F, V> {
        SuisOxrCreatedSetView { set: self.set@, bindings: self.bindings@ }
    }
}

/// The views of a list of created sets.
pub open spec fn created_views<F, V>(list: Seq<SuisOxrCreatedSet<F, V>>) -> Seq<
    SuisOxrCreatedSetView<F, V>,
> {
    list.map_values(|s: SuisOxrCreatedSet<F, V>| s@)
}

/// The handles of all live sets, for the session to attach.
pub fn attach_actions<F, V>(sets: &Vec<SuisOxrCreatedSet<F, V>>) -> (r: Vec<u64>)
    ensures
        r@ == created_views(sets@).map_values(|s: SuisOxrCreatedSetView<F, V>| s.set.set),
{
    let mut out: Vec<u64> = Vec::new();
    let mut i: usize = 0;
    while i < sets.len()
        invariant
            i <= sets.len(),
            out@.len() == i,
            forall|j: int| 0 <= j < i ==> out@[j] == sets@[j].set.set,
        decreases sets.len() - i,
    {
        out.push(sets[i].set.set);
        i += 1;
    }
    assert(out@ =~= created_views(sets@).map_values(|s: SuisOxrCreatedSetView<F, V>| s.set.set));
    out
}

/// The handles of the live sets that are active, for the per-frame sync.
pub fn sync_sets<F, V>(sets: &Vec<SuisOxrCreatedSet<F, V>>) -> (r: Vec<u64>)
    ensures
        r@ == created_views(sets@).filter(|s: SuisOxrCreatedSetView<F, V>| s.set.active).map_values(
            |s: SuisOxrCreatedSetView<F, V>| s.set.set,
        ),
{
    let mut out: Vec<u64> = Vec::new();
    let ghost views = created_views(sets@);
    let ghost active = |s: SuisOxrCreatedSetView<F, V>| s.set.active;
    let ghost handle = |s: SuisOxrCreatedSetView<F, V>| s.set.set;
    let mut i: usize = 0;
    proof {
        assert(views.take(0) =~= Seq::<SuisOxrCreatedSetView<F, V>>::empty());
        assert(views.take(0).filter(active) =~= Seq::<SuisOxrCreatedSetView<F, V>>::empty()) by {
            reveal(Seq::filter);
        }
    }
    while i < sets.len()
        invariant
            i <= sets.len(),
            views == created_views(sets@),
            active == |s: SuisOxrCreatedSetView<F, V>| s.set.active,
            handle == |s: SuisOxrCreatedSetView<F, V>| s.set.set,
            out@ == views.take(i as int).filter(active).map_values(handle),
        decreases sets.len() - i,
    {
        proof {
            let next = views.take(i as int + 1);
            assert(next.drop_last() =~= views.take(i as int));
            assert(next.last() == views[i as int]);
            reveal(Seq::filter);
            assert(next.filter(active) == if active(views[i as int]) {
                views.take(i as int).filter(active).push(views[i as int])
            } else {
                views.take(i as int).filter(active)
            });
        }
        if sets[i].set.active {
            out.push(sets[i].set.set);
            assert(out@ =~= views.take(i as int + 1).filter(active).map_values(handle));
        }
        i += 1;
    }
    assert(views.take(sets.len() as int) =~= views);
    out
}

/// Starts a frame for every action of every live set: see
/// [`SuisOxrTypedAction::clear_last_values`]. Pose actions, names, handles
/// and the sets' declarations stay as they are.
pub fn clear_last_action_values<F: Copy, V: Copy>(sets: &mut Vec<SuisOxrCreatedSet<F, V>>)
    ensures
        created_views(final(sets)@) == created_views(old(sets)@).map_values(
            |s: SuisOxrCreatedSetView<F, V>|
                SuisOxrCreatedSetView { set: s.set.clear_last_values(), ..s },
        ),
{
    let n = sets.len();
    let mut i: usize = 0;
    while i < n
        invariant
            i <= n,
            n == sets.len(),
            n == old(sets).len(),
            forall|j: int|
                0 <= j < i ==> (#[trigger] sets@[j])@ == (SuisOxrCreatedSetView {
                    set: old(sets)@[j]@.set.clear_last_values(),
                    ..old(sets)@[j]@
                }),
            forall|j: int| i <= j < n ==> #[trigger] sets@[j] == old(sets)@[j],
        decreases n - i,
    {
        let count = sets[i].set.actions.len();
        let ghost before = sets@[i as int];
        let mut k: usize = 0;
        while k < count
            invariant
                k <= count,
                i < n,
                n == sets.len(),
                count == sets@[i as int].set.actions.len(),
                count == before.set.actions.len(),
                sets@[i as int].bindings == before.bindings,
                sets@[i as int].set.name == before.set.name,
                sets@[i as int].set.localized_name == before.set.localized_name,
                sets@[i as int].set.active == before.set.active,
                sets@[i as int].set.set == before.set.set,
                n == old(sets).len(),
                forall|j: int|
                    0 <= j < i ==> (#[trigger] sets@[j])@ == (SuisOxrCreatedSetView {
                        set: old(sets)@[j]@.set.clear_last_values(),
                        ..old(sets)@[j]@
                    }),
                forall|j: int| i < j < n ==> #[trigger] sets@[j] == old(sets)@[j],
                forall|a: int|
                    0 <= a < k ==> (#[trigger] sets@[i as int].set.actions@[a])@
                        == before.set.actions@[a]@.clear_last_values(),
                forall|a: int|
                    k <= a < count ==> #[trigger] sets@[i as int].set.actions@[a]
                        == before.set.actions@[a],
            decreases count - k,
        {
            sets[i].set.actions[k].clear_last_values();
            k += 1;
        }
        proof {
            assert(before == old(sets)@[i as int]);
            assert(sets@[i as int]@.set.actions =~= before@.set.clear_last_values().actions);
        }
        i += 1;
    }
    assert(created_views(final(sets)@) =~= created_views(old(sets)@).map_values(
        |s: SuisOxrCreatedSetView<F, V>|
            SuisOxrCreatedSetView { set: s.set.clear_last_values(), ..s },
    ));
}

/// The place of one tracking space among the live sets: the set, the
/// action in the set, and the input path in the action's table.
pub struct SuisOxrSpaceSlot {
    pub set: int,
    pub action: int,
    pub path: u64,
}

/// Whether `slot` names a tracking space that `sets` holds.
pub open spec fn is_space_slot<F, V>(
    sets: Seq<SuisOxrCreatedSetView<F, V>>,
    slot: SuisOxrSpaceSlot,
) -> bool {
    &&& 0 <= slot.set < sets.len()
    &&& 0 <= slot.action < sets[slot.set].set.actions.len()
    &&& sets[slot.set].set.actions[slot.action].spaces().contains_key(slot.path)
}

/// The tracking space at `slot`.
pub open spec fn space_at<F, V>(
    sets: Seq<SuisOxrCreatedSetView<F, V>>,
    slot: SuisOxrSpaceSlot,
) -> u64 {
    sets[slot.set].set.actions[slot.action].spaces()[slot.path]
}

/// `handles` holds the tracking space of every slot of `sets`, once per
/// slot, in some order.
pub open spec fn all_spaces_drained<F, V>(
    sets: Seq<SuisOxrCreatedSetView<F, V>>,
    handles: Seq<u64>,
) -> bool {
    exists|slots: Seq<SuisOxrSpaceSlot>|
        #![trigger slots.no_duplicates()]
        {
            &&& slots.no_duplicates()
            &&& forall|slot: SuisOxrSpaceSlot|
                slots.contains(slot) <==> is_space_slot(sets, slot)
            &&& handles == slots.map_values(|slot: SuisOxrSpaceSlot| space_at(sets, slot))
        }
}

/// Whether `slot` lies before the action `action` of the set `set`.
spec fn slot_before(slot: SuisOxrSpaceSlot, set: int, action: int) -> bool {
    slot.set < set || (slot.set == set && slot.action < action)
}

/// The teardown of a session: every pose action of every live set gives
/// up its spaces. The tables are left empty, and the spaces they held are
/// handed back for the caller to destroy, each once for each place that it
/// held. Everything else stays as it is.
pub fn destroy_action_spaces<F: Copy, V: Copy>(sets: &mut Vec<SuisOxrCreatedSet<F, V>>) -> (r: Vec<
    u64,
>)
    ensures
        created_views(final(sets)@) == created_views(old(sets)@).map_values(
            |s: SuisOxrCreatedSetView<F, V>|
                SuisOxrCreatedSetView { set: s.set.without_spaces(), ..s },
        ),
        all_spaces_drained(created_views(old(sets)@), r@),
{
    let mut out: Vec<u64> = Vec::new();
    let ghost views = created_views(old(sets)@);
    let ghost mut slots: Seq<SuisOxrSpaceSlot> = Seq::empty();
    let n = sets.len();
    let mut i: usize = 0;
    proof {
        assert(out@ =~= slots.map_values(|slot: SuisOxrSpaceSlot| space_at(views, slot)));
    }
    while i < n
        invariant
            i <= n,
            n == sets.len(),
            n == old(sets).len(),
            views == created_views(old(sets)@),
            forall|j: int|
                0 <= j < i ==> (#[trigger] sets@[j])@ == (SuisOxrCreatedSetView {
                    set: old(sets)@[j]@.set.without_spaces(),
                    ..old(sets)@[j]@
                }),
            forall|j: int| i <= j < n ==> #[trigger] sets@[j] == old(sets)@[j],
            slots.no_duplicates(),
            forall|slot: SuisOxrSpaceSlot|
                slots.contains(slot) <==> is_space_slot(views, slot) && slot_before(
                    slot,
                    i as int,
                    0,
                ),
            out@ == slots.map_values(|slot: SuisOxrSpaceSlot| space_at(views, slot)),
        decreases n - i,
    {
        let count = sets[i].set.actions.len();
        let ghost before = sets@[i as int];
        let mut k: usize = 0;
        while k < count
            invariant
                k <= count,
                i < n,
                n == sets.len(),
                n == old(sets).len(),
                views == created_views(old(sets)@),
                before == old(sets)@[i as int],
                count == sets@[i as int].set.actions.len(),
                count == before.set.actions.len(),
                sets@[i as int].bindings == before.bindings,
                sets@[i as int].set.name == before.set.name,
                sets@[i as int].set.localized_name == before.set.localized_name,
                sets@[i as int].set.active == before.set.active,
                sets@[i as int].set.set == before.set.set,
                forall|j: int|
                    0 <= j < i ==> (#[trigger] sets@[j])@ == (SuisOxrCreatedSetView {
                        set: old(sets)@[j]@.set.without_spaces(),
                        ..old(sets)@[j]@
                    }),
                forall|j: int| i < j < n ==> #[trigger] sets@[j] == old(sets)@[j],
                forall|a: int|
                    0 <= a < k ==> (#[trigger] sets@[i as int].set.actions@[a])@
                        == before.set.actions@[a]@.without_spaces(),
                forall|a: int|
                    k <= a < count ==> #[trigger] sets@[i as int].set.actions@[a]
                        == before.set.actions@[a],
                slots.no_duplicates(),
                forall|slot: SuisOxrSpaceSlot|
                    slots.contains(slot) <==> is_space_slot(views, slot) && slot_before(
                        slot,
                        i as int,
                        k as int,
                    ),
                out@ == slots.map_values(|slot: SuisOxrSpaceSlot| space_at(views, slot)),
            decreases count - k,
        {
            let mut spaces = sets[i].set.actions[k].drain_spaces();
            proof {
                let table = before.set.actions@[k as int]@.spaces();
                assert(views[i as int].set.actions[k as int] == before.set.actions@[k as int]@);
                let paths = choose|paths: Seq<u64>|
                    #![trigger paths.no_duplicates()]
                    paths.no_duplicates() && paths.to_set() == table.dom() && spaces@
                        == paths.map_values(|p: u64| table[p]);
                let found = paths.map_values(
                    |p: u64| SuisOxrSpaceSlot { set: i as int, action: k as int, path: p },
                );
                let all = slots + found;
                assert forall|x: int, y: int| 0 <= x < y < all.len() implies all[x] != all[y] by {
                    if y < slots.len() {
                    } else if x < slots.len() {
                        assert(slots.contains(slots[x]));
                        assert(found[y - slots.len()].action == k);
                    } else {
                        assert(paths[x - slots.len()] != paths[y - slots.len()]);
                    }
                }
                assert forall|slot: SuisOxrSpaceSlot|
                    all.contains(slot) <==> is_space_slot(views, slot) && slot_before(
                        slot,
                        i as int,
                        k as int + 1,
                    ) by {
                    if all.contains(slot) {
                        let x = all.index_of(slot);
                        assert(all[x] == slot);
                        if x < slots.len() {
                            assert(slots.contains(slot));
                        } else {
                            assert(paths.to_set().contains(paths[x - slots.len()]));
                        }
                    }
                    if is_space_slot(views, slot) && slot_before(slot, i as int, k as int + 1) {
                        if slot_before(slot, i as int, k as int) {
                            assert(slots.contains(slot));
                            let x = slots.index_of(slot);
                            assert(all[x] == slot);
                        } else {
                            assert(paths.to_set().contains(slot.path));
                            let x = paths.index_of(slot.path);
                            assert(paths[x] == slot.path);
                            assert(all[slots.len() + x] == slot);
                        }
                    }
                }
                assert(out@ + spaces@ =~= all.map_values(
                    |slot: SuisOxrSpaceSlot| space_at(views, slot),
                ));
                slots = all;
            }
            out.append(&mut spaces);
            k += 1;
        }
        proof {
            assert(sets@[i as int]@.set.actions =~= before@.set.without_spaces().actions);
            assert forall|slot: SuisOxrSpaceSlot|
                is_space_slot(views, slot) implies (slot_before(slot, i as int, count as int)
                <==> slot_before(slot, i as int + 1, 0)) by {}
        }
        i += 1;
    }
    assert(created_views(final(sets)@) =~= created_views(old(sets)@).map_values(
        |s: SuisOxrCreatedSetView<F, V>|
            SuisOxrCreatedSetView { set: s.set.without_spaces(), ..s },
    ));
    out
}

/// The model of one request to bind an action under one interaction profile.
pub struct SuisOxrSuggestedBindingView {
    pub action: u64,
    pub interaction_profile: Seq<char>,
    pub bindings: Seq<Seq<char>>,
}

/// One request to the runtime: bind the action with the handle `action`,
/// under `interaction_profile`, to the input paths `bindings`.
#[derive(Debug, PartialEq, Eq)]
pub struct SuisOxrSuggestedBinding {
    pub action: u64,
    pub interaction_profile: &'static str,
    pub bindings: Vec<&'static str>,
}

impl View for SuisOxrSuggestedBinding {
    type V = SuisOxrSuggestedBindingView;

    open spec fn view(&self) -> SuisOxrSuggestedBindingView {
        SuisOxrSuggestedBindingView {
            action: self.action,
            interaction_profile: self.interaction_profile@,
            bindings: texts(self.bindings@),
        }
    }
}

/// The views of a list of requests.
pub open spec fn suggested_views(list: Seq<SuisOxrSuggestedBinding>) -> Seq<
    SuisOxrSuggestedBindingView,
> {
    list.map_values(|s: SuisOxrSuggestedBinding| s@)
}

/// The requests for one live action: one for each interaction profile
/// that its declaration has bindings under.
pub open spec fn action_suggestions(action: u64, declared: SuisOxrBindingActionView) -> Seq<
    SuisOxrSuggestedBindingView,
> {
    Seq::new(
        declared.profiles.len(),
        |i: int|
            SuisOxrSuggestedBindingView {
                action,
                interaction_profile: declared.profiles[i],
                bindings: declared.bindings[declared.profiles[i]],
            },
    )
}

/// The number of actions of a created set that stand beside a declaration.
pub open spec fn paired<F, V>(set: SuisOxrCreatedSetView<F, V>) -> nat {
    if set.set.actions.len() <= set.bindings.actions.len() {
        set.set.actions.len()
    } else {
        set.bindings.actions.len()
    }
}

/// The requests for the first `n` actions of a created set, each action
/// taken with the declaration that stands beside it.
pub open spec fn set_suggestions<F, V>(set: SuisOxrCreatedSetView<F, V>, n: nat) -> Seq<
    SuisOxrSuggestedBindingView,
>
    decreases n,
{
    if n == 0 {
        Seq::empty()
    } else {
        set_suggestions(set, (n - 1) as nat) + action_suggestions(
            set.set.actions[n - 1].as_raw(),
            set.bindings.actions[n - 1],
        )
    }
}

/// The requests for the first `n` created sets.
pub open spec fn all_suggestions<F, V>(sets: Seq<SuisOxrCreatedSetView<F, V>>, n: nat) -> Seq<
    SuisOxrSuggestedBindingView,
>
    decreases n,
{
    if n == 0 {
        Seq::empty()
    } else {
        all_suggestions(sets, (n - 1) as nat) + set_suggestions(sets[n - 1], paired(sets[n - 1]))
    }
}

/// A list with the same strings as `list`.
fn copy_paths(list: &Vec<&'static str>) -> (r: Vec<&'static str>)
    ensures
        r@ == list@,
{
    let mut out: Vec<&'static str> = Vec::new();
    let mut i: usize = 0;
    while i < list.len()
        invariant
            i <= list.len(),
            out@ == list@.take(i as int),
        decreases list.len() - i,
    {
        out.push(list[i]);
        assert(out@ =~= list@.take(i as int + 1));
        i += 1;
    }
    assert(list@.take(list.len() as int) =~= list@);
    out
}

/// The bindings to suggest to the runtime before the action sets are
/// attached: for every live action, taken with its declaration, one request
/// for each interaction profile that the declaration has bindings under.
/// The requests come in the order of the sets, of the actions in a set, and
/// of the profiles in a declaration.
pub fn suggest_bindings<F: Copy, V: Copy>(sets: &Vec<SuisOxrCreatedSet<F, V>>) -> (r: Vec<
    SuisOxrSuggestedBinding,
>)
    ensures
        suggested_views(r@) == all_suggestions(created_views(sets@), sets@.len()),
{
    let mut out: Vec<SuisOxrSuggestedBinding> = Vec::new();
    let ghost views = created_views(sets@);
    let mut i: usize = 0;
    proof {
        assert(suggested_views(out@) =~= all_suggestions(views, 0));
    }
    while i < sets.len()
        invariant
            i <= sets.len(),
            views == created_views(sets@),
            suggested_views(out@) == all_suggestions(views, i as nat),
        decreases sets.len() - i,
    {
        let set = &sets[i];
        let live = set.set.actions.len();
        let declared = set.bindings.action_count();
        let pairs = if live <= declared {
            live
        } else {
            declared
        };
        let ghost done = suggested_views(out@);
        let mut k: usize = 0;
        proof {
            assert(suggested_views(out@) =~= done + set_suggestions(views[i as int], 0));
        }
        while k < pairs
            invariant
                k <= pairs,
                i < sets.len(),
                views == created_views(sets@),
                *set == sets@[i as int],
                pairs == paired(views[i as int]),
                suggested_views(out@) == done + set_suggestions(views[i as int], k as nat),
            decreases pairs - k,
        {
            let action = set.set.actions[k].as_raw();
            let binding = set.bindings.action_at(k);
            let profiles = binding.profile_count();
            let ghost so_far = suggested_views(out@);
            let ghost wanted = action_suggestions(action, binding@);
            let mut p: usize = 0;
            proof {
                assert(views[i as int].set.actions[k as int] == set.set.actions@[k as int]@);
                assert(suggested_views(out@) =~= so_far + wanted.take(0));
            }
            while p < profiles
                invariant
                    p <= profiles,
                    profiles == binding@.profiles.len(),
                    wanted == action_suggestions(action, binding@),
                    suggested_views(out@) == so_far + wanted.take(p as int),
                decreases profiles - p,
            {
                let interaction_profile = binding.profile_at(p);
                let bindings = copy_paths(binding.paths_at(p));
                let ghost earlier = out@;
                let suggestion = SuisOxrSuggestedBinding { action, interaction_profile, bindings };
                assert(suggestion@ == wanted[p as int]);
                out.push(suggestion);
                proof {
                    assert(suggested_views(out@) =~= suggested_views(earlier).push(
                        wanted[p as int],
                    ));
                    assert(wanted.take(p as int + 1) =~= wanted.take(p as int).push(
                        wanted[p as int],
                    ));
                    assert(suggested_views(out@) =~= so_far + wanted.take(p as int + 1));
                }
                p += 1;
            }
            proof {
                assert(wanted.take(profiles as int) =~= wanted);
                assert(suggested_views(out@) =~= done + set_suggestions(
                    views[i as int],
                    (k + 1) as nat,
                ));
            }
            k += 1;
        }
        i += 1;
    }
    out
}

/// The model of a request to the runtime during the creation of the actions.
pub enum SuisOxrSetupRequestView {
    CreateActionSet { name: Seq<char>, localized_name: Seq<char>, priority: u32 },
    CreateAction {
        set: u64,
        action_type: SuisOxrActionType,
        name: Seq<char>,
        localized_name: Seq<char>,
    },
    Finished,
}

/// What the creation of the actions asks of the runtime next.
#[derive(Clone, Copy, Debug, PartialEq, Eq)]
pub enum SuisOxrSetupRequest {
    /// Create an action set of these names and this priority.
    CreateActionSet { name: &'static str, localized_name: &'static str, priority: u32 },
    /// Create an action of this type and these names in the action set
    /// with the handle `set`.
    CreateAction {
        set: u64,
        action_type: SuisOxrActionType,
        name: &'static str,
        localized_name: &'static str,
    },
    /// Nothing: every declared set was dealt with.
    Finished,
}

impl View for SuisOxrSetupRequest {
    type V = SuisOxrSetupRequestView;

    open spec fn view(&self) -> SuisOxrSetupRequestView {
        match self {
            SuisOxrSetupRequest::CreateActionSet { name, localized_name, priority } => {
                SuisOxrSetupRequestView::CreateActionSet {
                    name: name@,
                    localized_name: localized_name@,
                    priority: *priority,
                }
            },
            SuisOxrSetupRequest::CreateAction { set, action_type, name, localized_name } => {
                SuisOxrSetupRequestView::CreateAction {
                    set: *set,
                    action_type: *action_type,
                    name: name@,
                    localized_name: localized_name@,
                }
            },
            SuisOxrSetupRequest::Finished => SuisOxrSetupRequestView::Finished,
        }
    }
}

/// The model of an action set that the runtime has created and whose
/// actions are being created.
pub struct SuisOxrOpenSetView<F, V> {
    /// The runtime handle of the set.
    pub set: u64,
    /// The declaration of the set, with the actions that are still to be asked for.
    pub pending: SuisOxrBindingSetView,
    /// The actions of the set that are live.
    pub actions: Seq<SuisOxrActionView<F, V>>,
    /// The declarations of the actions that are live, in the same order.
    pub kept: Seq<SuisOxrBindingActionView>,
}

impl<F, V> SuisOxrOpenSetView<F, V> {
    /// What the set leaves behind once all its actions were asked for.
    pub open spec fn close(self) -> SuisOxrCreatedSetView<F, V> {
        SuisOxrCreatedSetView {
            set: SuisOxrActionSetView {
                name: self.pending.name,
                localized_name: self.pending.localized_name,
                active: true,
                set: self.set,
                actions: self.actions,
            },
            bindings: SuisOxrBindingSetView {
                name: self.pending.name,
                localized_name: self.pending.localized_name,
                actions: self.kept,
            },
        }
    }
}

/// The number of requests that the declared sets `pending` can still give rise to.
pub open spec fn pending_steps(pending: Seq<SuisOxrBindingSetView>) -> nat
    decreases pending.len(),
{
    if pending.len() == 0 {
        0
    } else {
        1 + pending[0].actions.len() + pending_steps(pending.drop_first())
    }
}

/// The model of the creation of the actions, at some point on its way.
pub struct SuisOxrActionSetupView<F, V> {
    /// The declared sets that were not asked for yet.
    pub pending: Seq<SuisOxrBindingSetView>,
    /// The set whose actions are being created, if there is one.
    pub open: Option<SuisOxrOpenSetView<F, V>>,
    /// What the sets that are done have left behind.
    pub created: Seq<SuisOxrCreatedSetView<F, V>>,
}

impl<F, V> SuisOxrActionSetupView<F, V> {
    /// The start: everything in `config` is still to be asked for.
    pub open spec fn start(config: Seq<SuisOxrBindingSetView>) -> Self {
        SuisOxrActionSetupView { pending: config, open: None, created: Seq::empty() }
    }

    /// An open set has an action left to ask for.
    pub open spec fn wf(self) -> bool {
        self.open matches Some(open) ==> open.pending.actions.len() > 0
    }

    /// What is asked of the runtime next: the next action of the open
    /// set; without an open set, the next declared set; without either,
    /// nothing.
    pub open spec fn request(self) -> SuisOxrSetupRequestView {
        match self.open {
            Some(open) => SuisOxrSetupRequestView::CreateAction {
                set: open.set,
                action_type: open.pending.actions[0].action_type,
                name: open.pending.actions[0].name,
                localized_name: open.pending.actions[0].localized_name,
            },
            None => if self.pending.len() == 0 {
                SuisOxrSetupRequestView::Finished
            } else {
                SuisOxrSetupRequestView::CreateActionSet {
                    name: self.pending[0].name,
                    localized_name: self.pending[0].localized_name,
                    priority: 0,
                }
            },
        }
    }

    /// The creation with `open` as its open set, or, where `open` has no
    /// action left to ask for, with that set done.
    pub open spec fn settle(
        pending: Seq<SuisOxrBindingSetView>,
        open: SuisOxrOpenSetView<F, V>,
        created: Seq<SuisOxrCreatedSetView<F, V>>,
    ) -> Self {
        if open.pending.actions.len() == 0 {
            SuisOxrActionSetupView { pending, open: None, created: created.push(open.close()) }
        } else {
            SuisOxrActionSetupView { pending, open: Some(open), created }
        }
    }

    /// The creation after the runtime answered the request: `Some` with
    /// the handle of what it created, `None` where it failed.
    ///
    /// A set that could not be created is passed over with all its
    /// actions. An action that could not be created is passed over alone.
    /// What was created before stays.
    pub open spec fn advance(self, outcome: Option<u64>) -> Self {
        match self.open {
            Some(open) => {
                let declared = open.pending.actions[0];
                let rest = SuisOxrBindingSetView {
                    actions: open.pending.actions.drop_first(),
                    ..open.pending
                };
                match outcome {
                    Some(handle) => Self::settle(
                        self.pending,
                        SuisOxrOpenSetView {
                            set: open.set,
                            pending: rest,
                            actions: open.actions.push(
                                SuisOxrActionView::fresh(declared.action_type, handle),
                            ),
                            kept: open.kept.push(declared),
                        },
                        self.created,
                    ),
                    None => Self::settle(
                        self.pending,
                        SuisOxrOpenSetView { pending: rest, ..open },
                        self.created,
                    ),
                }
            },
            None => if self.pending.len() == 0 {
                self
            } else {
                match outcome {
                    Some(set) => Self::settle(
                        self.pending.drop_first(),
                        SuisOxrOpenSetView {
                            set,
                            pending: self.pending[0],
                            actions: Seq::empty(),
                            kept: Seq::empty(),
                        },
                        self.created,
                    ),
                    None => SuisOxrActionSetupView {
                        pending: self.pending.drop_first(),
                        ..self
                    },
                }
            },
        }
    }

    /// The number of requests that are still to come, at most.
    pub open spec fn steps_left(self) -> nat {
        pending_steps(self.pending) + match self.open {
            Some(open) => open.pending.actions.len(),
            None => 0,
        }
    }
}

/// What the runtime's answer to a creation request comes to: the handle, or none.
pub open spec fn created_handle<E>(outcome: Result<u64, E>) -> Option<u64> {
    match outcome {
        Ok(handle) => Some(handle),
        Err(_) => None,
    }
}

/// An action set that the runtime has created and whose actions are being created.
struct OpenSet<F, V> {
    set: u64,
    pending: SuisOxrBindingSet,
    actions: Vec<SuisOxrAction<F, V>>,
    kept: SuisOxrBindingSet,
}

impl<F, V> View for OpenSet<F, V> {
    type V = SuisOxrOpenSetView<F, V>;

    closed spec fn view(&self) -> SuisOxrOpenSetView<F, V> {
        SuisOxrOpenSetView {
            set: self.set,
            pending: self.pending@,
            actions: live_action_views(self.actions@),
            kept: self.kept@.actions,
        }
    }
}

/// The creation of the live action sets from a binding configuration.
///
/// The runtime creates; this type decides. It says what to ask of the
/// runtime next ([`SuisOxrActionSetup::request`]), takes in the answer
/// ([`SuisOxrActionSetup::advance`]), and in the end hands out what was
/// created ([`SuisOxrActionSetup::finish`]). A failure of the runtime does
/// not stop it: what could not be created is left out.
pub struct SuisOxrActionSetup<F, V> {
    pending: SuisOxrBindings,
    open: Option<OpenSet<F, V>>,
    created: Vec<SuisOxrCreatedSet<F, V>>,
}

impl<F, V> View for SuisOxrActionSetup<F, V> {
    type V = SuisOxrActionSetupView<F, V>;

    closed spec fn view(&self) -> SuisOxrActionSetupView<F, V> {
        SuisOxrActionSetupView {
            pending: self.pending@,
            open: match self.open {
                Some(open) => Some(open@),
                None => None,
            },
            created: created_views(self.created@),
        }
    }
}

/// Starts the creation of the live action sets that `bindings` declares.
/// The configuration is used up by this.
pub fn create_actions<F: Copy, V: Copy>(bindings: SuisOxrBindings) -> (r: SuisOxrActionSetup<F, V>)
    ensures
        r@ == SuisOxrActionSetupView::<F, V>::start(bindings@),
        r@.wf(),
{
    let r = SuisOxrActionSetup { pending: bindings, open: None, created: Vec::new() };
    assert(r@.created =~= Seq::<SuisOxrCreatedSetView<F, V>>::empty());
    r
}

impl<F, V> SuisOxrActionSetup<F, V> {
    #[verifier::type_invariant]
    spec fn inv(self) -> bool {
        self.open matches Some(open) ==> {
            &&& open.pending@.actions.len() > 0
            &&& open.kept@.name == open.pending@.name
            &&& open.kept@.localized_name == open.pending@.localized_name
        }
    }
}

impl<F: Copy, V: Copy> SuisOxrActionSetup<F, V> {
    /// What to ask of the runtime next.
    pub fn request(&self) -> (r: SuisOxrSetupRequest)
        ensures
            self@.wf(),
            r@ == self@.request(),
    {
        proof {
            use_type_invariant(self);
        }
        match &self.open {
            Some(open) => {
                let declared = open.pending.action_at(0);
                SuisOxrSetupRequest::CreateAction {
                    set: open.set,
                    action_type: declared.action_type(),
                    name: declared.name(),
                    localized_name: declared.localized_name(),
                }
            },
            None => {
                if self.pending.set_count() == 0 {
                    SuisOxrSetupRequest::Finished
                } else {
                    let declared = self.pending.set_at(0);
                    SuisOxrSetupRequest::CreateActionSet {
                        name: declared.name(),
                        localized_name: declared.localized_name(),
                        priority: 0,
                    }
                }
            },
        }
    }

    /// Puts `open` back as the open set, or closes it where it has no
    /// action left to ask for.
    fn settle(
        pending: SuisOxrBindings,
        open: OpenSet<F, V>,
        created: Vec<SuisOxrCreatedSet<F, V>>,
    ) -> (r: Self)
        requires
            open.kept@.name == open.pending@.name,
            open.kept@.localized_name == open.pending@.localized_name,
        ensures
            r@ == SuisOxrActionSetupView::settle(pending@, open@, created_views(created@)),
    {
        if open.pending.action_count() == 0 {
            let ghost closed = open@.close();
            let OpenSet { set, pending: _, actions, kept } = open;
            let mut created = created;
            let ghost earlier = created@;
            let done = SuisOxrCreatedSet {
                set: SuisOxrActionSet {
                    name: kept.name(),
                    localized_name: kept.localized_name(),
                    active: true,
                    set,
                    actions,
                },
                bindings: kept,
            };
            assert(done@ == closed);
            created.push(done);
            assert(created_views(created@) =~= created_views(earlier).push(closed));
            SuisOxrActionSetup { pending, open: None, created }
        } else {
            SuisOxrActionSetup { pending, open: Some(open), created }
        }
    }

    /// Takes in the runtime's answer to the request that
    /// [`SuisOxrActionSetup::request`] gave: the handle of what was
    /// created, or the error. After `Finished` there was no request, and the
    /// answer is dropped.
    pub fn advance<E>(self, outcome: Result<u64, E>) -> (r: Self)
        ensures
            r@ == self@.advance(created_handle(outcome)),
            r@.wf(),
    {
        proof {
            use_type_invariant(&self);
        }
        let SuisOxrActionSetup { mut pending, open, created } = self;
        let r = match open {
            Some(open) => {
                let OpenSet { set, pending: mut rest, mut actions, mut kept } = open;
                let ghost earlier = actions@;
                match rest.take_first_action() {
                    Some(declared) => {
                        match create_suis_oxr_action(&declared, outcome) {
                            Ok(action) => {
                                actions.push(action);
                                kept.push_action(declared);
                                assert(live_action_views(actions@) =~= live_action_views(
                                    earlier,
                                ).push(action@));
                            },
                            Err(_) => {},
                        }
                        Self::settle(pending, OpenSet { set, pending: rest, actions, kept }, created)
                    },
                    None => Self::settle(
                        pending,
                        OpenSet { set, pending: rest, actions, kept },
                        created,
                    ),
                }
            },
            None => {
                match pending.take_first_set() {
                    Some(declared) => {
                        match outcome {
                            Ok(set) => {
                                let kept = SuisOxrBindingSet::new(
                                    declared.name(),
                                    declared.localized_name(),
                                );
                                let open = OpenSet {
                                    set,
                                    pending: declared,
                                    actions: Vec::new(),
                                    kept,
                                };
                                assert(open@.actions =~= Seq::<SuisOxrActionView<F, V>>::empty());
                                Self::settle(pending, open, created)
                            },
                            Err(_) => SuisOxrActionSetup { pending, open: None, created },
                        }
                    },
                    None => SuisOxrActionSetup { pending, open: None, created },
                }
            },
        };
        proof {
            use_type_invariant(&r);
        }
        r
    }

    /// Ends the creation and hands out what the sets that are done have
    /// left behind, in the order of their declaration. Called before
    /// `Finished`, it leaves the rest uncreated.
    pub fn finish(self) -> (r: Vec<SuisOxrCreatedSet<F, V>>)
        ensures
            created_views(r@) == self@.created,
    {
        self.created
    }
}

} // verus!
