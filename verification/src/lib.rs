//! Spatial input routing for immersive applications.
//!
//! An *input method* is a source of input: a hand, a controller, a pointer.
//! An *input handler* is a consumer. Once per frame every method hands its
//! payload to each handler on its list, and every handler keeps what it got
//! this frame beside what it got the frame before.
//!
//! The crate root holds this distribution engine. The module
//! [`openxr_low_level_actions`] holds the binding of runtime actions: the
//! declaration of action sets, their creation, their per-frame value caches
//! and the tracking spaces of pose actions.
//!
//! Entities, paths and runtime handles are 64-bit identifiers here. Nothing
//! in this crate talks to a runtime or to a scheduler: the functions take
//! what the runtime answered and say what has to be asked of it next.

use vstd::pervasive::cloned;
use vstd::prelude::*;

use crate::entity_table::EntityTable;
use crate::frame_map::FrameRotated;

pub mod entity_table;
pub mod frame_map;
pub mod openxr_low_level_actions;

verus! {

/// What a payload has to offer: it can be copied to each handler and compared with
/// the payload of another frame.
pub trait InputDataTrait: Clone + Eq + PartialEq + Send + Sync + 'static {

}

impl<T: Clone + Eq + PartialEq + Send + Sync + 'static> InputDataTrait for T {

}

/// A payload as a capture condition sees it.
#[derive(Debug, Hash)]
pub struct InputData<T: InputDataTrait>(pub T);

/// A source of input.
#[derive(Debug)]
pub struct InputMethod<T: InputDataTrait> {
    /// The payload of the running frame.
    pub input_data: T,
    /// The handlers that receive the payload, most important first.
    pub handler_order: Vec<u64>,
    /// The handler that holds the method for itself, if one does.
    pub captured_by: Option<u64>,
}

/// A consumer of input. `C` is the type of its capture condition, a
/// function from `&InputData<T>` to `bool`.
pub struct InputHandler<T: InputDataTrait, C> {
    /// What the handler received, this frame and the frame before.
    pub frames: FrameRotated<T>,
    /// Tells whether the handler wants a method for itself. Distribution
    /// does not ask it: every handler on a method's list gets the payload.
    pub capture_condition: C,
}

impl<T: InputDataTrait, C> InputHandler<T, C> {
    /// The payloads received so far in the running frame, by method.
    pub open spec fn current_frame(&self) -> Map<u64, T> {
        self.frames.current()
    }

    /// The payloads that the previous frame had received when it ended, by method.
    pub open spec fn previous_frame(&self) -> Map<u64, T> {
        self.frames.previous()
    }

    /// A handler that has received nothing yet.
    pub fn new(capture_condition: C) -> (r: Self)
        ensures
            r.current_frame() == Map::<u64, T>::empty(),
            r.previous_frame() == Map::<u64, T>::empty(),
            r.capture_condition == capture_condition,
    {
        InputHandler { frames: FrameRotated::new(), capture_condition }
    }

    /// The payload received from `method` in the running frame.
    pub fn current_data(&self, method: u64) -> (r: Option<&T>)
        ensures
            match r {
                Some(v) => self.current_frame().contains_key(method) && *v
                    == self.current_frame()[method],
                None => !self.current_frame().contains_key(method),
            },
    {
        self.frames.get_current(method)
    }

    /// The payload received from `method` in the previous frame.
    pub fn previous_frame_data(&self, method: u64) -> (r: Option<&T>)
        ensures
            match r {
                Some(v) => self.previous_frame().contains_key(method) && *v
                    == self.previous_frame()[method],
                None => !self.previous_frame().contains_key(method),
            },
    {
        self.frames.get_previous(method)
    }

    /// Ends the handler's frame: what it received becomes the previous
    /// frame, and the running frame starts empty.
    pub fn rotate(&mut self)
        ensures
            final(self).previous_frame() == old(self).current_frame(),
            final(self).current_frame() == Map::<u64, T>::empty(),
            final(self).capture_condition == old(self).capture_condition,
    {
        self.frames.rotate();
    }

    /// Receives `payload` from `method` for the running frame.
    pub fn receive(&mut self, method: u64, payload: T)
        ensures
            final(self).current_frame() == old(self).current_frame().insert(method, payload),
            final(self).previous_frame() == old(self).previous_frame(),
            final(self).capture_condition == old(self).capture_condition,
    {
        self.frames.insert(method, payload);
    }
}

/// The rotate phase: ends the frame of every handler.
pub fn clear_handler_old_input<T: InputDataTrait, C>(handlers: &mut EntityTable<InputHandler<T, C>>)
    ensures
        final(handlers).wf(),
        final(handlers).entities() == old(handlers).entities(),
        final(handlers)@.dom() == old(handlers)@.dom(),
        forall|h: u64| #[trigger]
            old(handlers)@.contains_key(h) ==> {
                &&& final(handlers)@[h].previous_frame() == old(handlers)@[h].current_frame()
                &&& final(handlers)@[h].current_frame() == Map::<u64, T>::empty()
                &&& final(handlers)@[h].capture_condition == old(handlers)@[h].capture_condition
            },
{
    let n = handlers.len();
    let mut j: usize = 0;
    while j < n
        invariant
            j <= n,
            handlers.wf(),
            old(handlers).wf(),
            n == handlers.entities().len(),
            handlers.entities() == old(handlers).entities(),
            forall|a: int|
                0 <= a < j ==> {
                    &&& (#[trigger] handlers.items()[a]).previous_frame() == old(
                        handlers,
                    ).items()[a].current_frame()
                    &&& handlers.items()[a].current_frame() == Map::<u64, T>::empty()
                    &&& handlers.items()[a].capture_condition == old(
                        handlers,
                    ).items()[a].capture_condition
                },
            forall|a: int| j <= a < n ==> #[trigger] handlers.items()[a] == old(handlers).items()[a],
        decreases n - j,
    {
        handlers.item_mut(j).rotate();
        j += 1;
    }
    proof {
        assert(final(handlers)@.dom() =~= old(handlers)@.dom());
        assert forall|h: u64| #[trigger] old(handlers)@.contains_key(h) implies {
            &&& final(handlers)@[h].previous_frame() == old(handlers)@[h].current_frame()
            &&& final(handlers)@[h].current_frame() == Map::<u64, T>::empty()
            &&& final(handlers)@[h].capture_condition == old(handlers)@[h].capture_condition
        } by {
            let a = old(handlers).entities().index_of(h);
            assert(old(handlers).entities()[a] == h);
            old(handlers).lemma_slot(a);
            final(handlers).lemma_slot(a);
        }
    }
}

/// The methods of `methods` whose handler list names `handler`.
pub open spec fn senders<T: InputDataTrait>(
    methods: Map<u64, InputMethod<T>>,
    handler: u64,
) -> Set<u64> {
    Set::new(|m: u64| methods.contains_key(m) && methods[m].handler_order@.contains(handler))
}

/// What the distribute phase does to the handler `handler`: it receives a
/// copy of the payload of each method that lists it, under that method's
/// entity, and keeps everything else.
pub open spec fn delivered<T: InputDataTrait, C>(
    before: InputHandler<T, C>,
    after: InputHandler<T, C>,
    methods: Map<u64, InputMethod<T>>,
    handler: u64,
) -> bool {
    &&& after.previous_frame() == before.previous_frame()
    &&& after.capture_condition == before.capture_condition
    &&& after.current_frame().dom() == before.current_frame().dom().union(
        senders(methods, handler),
    )
    &&& forall|m: u64| #[trigger]
        senders(methods, handler).contains(m) ==> cloned(
            methods[m].input_data,
            after.current_frame()[m],
        )
    &&& forall|m: u64|
        before.current_frame().contains_key(m) && !senders(methods, handler).contains(m)
            ==> #[trigger] after.current_frame()[m] == before.current_frame()[m]
}

/// Distribution is complete: after the distribute phase, a handler that a
/// method lists holds a copy of that method's payload under that method's
/// entity; and where a copy of a payload is equal to the payload, it holds
/// the payload itself.
pub proof fn lemma_distribution_complete<T: InputDataTrait, C>(
    before: InputHandler<T, C>,
    after: InputHandler<T, C>,
    methods: Map<u64, InputMethod<T>>,
    handler: u64,
    method: u64,
)
    requires
        delivered(before, after, methods, handler),
        methods.contains_key(method),
        methods[method].handler_order@.contains(handler),
    ensures
        after.current_frame().contains_key(method),
        cloned(methods[method].input_data, after.current_frame()[method]),
        (forall|a: T, b: T| #[trigger] cloned(a, b) ==> a == b) ==> after.current_frame()[method]
            == methods[method].input_data,
{
    assert(senders(methods, handler).contains(method));
    assert(before.current_frame().dom().union(senders(methods, handler)).contains(method));
}

/// Whether the method `m` has handed its payload to `handler` once the
/// walk has passed the first `k` names on the list of the method in slot `i`.
spec fn sent<T: InputDataTrait>(
    methods: &EntityTable<InputMethod<T>>,
    i: int,
    k: int,
    handler: u64,
    m: u64,
) -> bool {
    exists|a: int|
        0 <= a < methods.entities().len() && #[trigger] methods.entities()[a] == m && ((a < i
            && methods.items()[a].handler_order@.contains(handler)) || (a == i
            && methods.items()[a].handler_order@.take(k).contains(handler)))
}

/// The state of one handler while the walk stands at name `k` of the method in slot `i`.
spec fn progress<T: InputDataTrait, C>(
    before: InputHandler<T, C>,
    now: InputHandler<T, C>,
    methods: &EntityTable<InputMethod<T>>,
    i: int,
    k: int,
    handler: u64,
) -> bool {
    &&& now.previous_frame() == before.previous_frame()
    &&& now.capture_condition == before.capture_condition
    &&& forall|m: u64| #[trigger]
        now.current_frame().contains_key(m) <==> before.current_frame().contains_key(m) || sent(
            methods,
            i,
            k,
            handler,
            m,
        )
    &&& forall|m: u64| #[trigger]
        sent(methods, i, k, handler, m) ==> cloned(
            methods@[m].input_data,
            now.current_frame()[m],
        )
    &&& forall|m: u64|
        before.current_frame().contains_key(m) && !sent(methods, i, k, handler, m)
            ==> #[trigger] now.current_frame()[m] == before.current_frame()[m]
}

/// Passing one more name of the list of the method in slot `i` adds that
/// method for the handler named, and nothing else.
proof fn lemma_sent_step<T: InputDataTrait>(
    methods: &EntityTable<InputMethod<T>>,
    i: int,
    k: int,
    handler: u64,
    m: u64,
)
    requires
        methods.wf(),
        0 <= i < methods.entities().len(),
        0 <= k < methods.items()[i].handler_order@.len(),
    ensures
        sent(methods, i, k + 1, handler, m) <==> sent(methods, i, k, handler, m) || (m
            == methods.entities()[i] && methods.items()[i].handler_order@[k] == handler),
{
    let order = methods.items()[i].handler_order@;
    if sent(methods, i, k + 1, handler, m) {
        let a = choose|a: int|
            0 <= a < methods.entities().len() && #[trigger] methods.entities()[a] == m && ((a < i
                && methods.items()[a].handler_order@.contains(handler)) || (a == i
                && methods.items()[a].handler_order@.take(k + 1).contains(handler)));
        if a == i {
            let x = order.take(k + 1).index_of(handler);
            assert(order.take(k + 1)[x] == handler);
            if x < k {
                assert(order.take(k)[x] == handler);
            }
        }
    }
    if sent(methods, i, k, handler, m) {
        let a = choose|a: int|
            0 <= a < methods.entities().len() && #[trigger] methods.entities()[a] == m && ((a < i
                && methods.items()[a].handler_order@.contains(handler)) || (a == i
                && methods.items()[a].handler_order@.take(k).contains(handler)));
        if a == i {
            let x = order.take(k).index_of(handler);
            assert(order.take(k)[x] == handler);
            assert(order.take(k + 1)[x] == handler);
        }
    }
    if m == methods.entities()[i] && order[k] == handler {
        assert(order.take(k + 1)[k] == handler);
    }
}

/// Having passed the whole list of the method in slot `i` is the same as
/// standing before the list of the method in slot `i + 1`.
proof fn lemma_sent_next<T: InputDataTrait>(
    methods: &EntityTable<InputMethod<T>>,
    i: int,
    handler: u64,
    m: u64,
)
    requires
        methods.wf(),
        0 <= i < methods.entities().len(),
    ensures
        sent(methods, i, methods.items()[i].handler_order@.len() as int, handler, m) <==> sent(
            methods,
            i + 1,
            0,
            handler,
            m,
        ),
{
    let order = methods.items()[i].handler_order@;
    let k = order.len() as int;
    assert(order.take(k) =~= order);
    if sent(methods, i, k, handler, m) {
        let a = choose|a: int|
            0 <= a < methods.entities().len() && #[trigger] methods.entities()[a] == m && ((a < i
                && methods.items()[a].handler_order@.contains(handler)) || (a == i
                && methods.items()[a].handler_order@.take(k).contains(handler)));
        assert(a < i + 1 && methods.items()[a].handler_order@.contains(handler));
    }
    if sent(methods, i + 1, 0, handler, m) {
        let a = choose|a: int|
            0 <= a < methods.entities().len() && #[trigger] methods.entities()[a] == m && ((a < i
                + 1 && methods.items()[a].handler_order@.contains(handler)) || (a == i + 1
                && methods.items()[a].handler_order@.take(0).contains(handler)));
        if a == i + 1 {
            let x = methods.items()[a].handler_order@.take(0).index_of(handler);
            assert(methods.items()[a].handler_order@.take(0)[x] == handler);
        }
    }
}

/// Before the first method nothing has been sent; behind the last one
/// everything has that `senders` names.
proof fn lemma_sent_ends<T: InputDataTrait>(
    methods: &EntityTable<InputMethod<T>>,
    handler: u64,
    m: u64,
)
    requires
        methods.wf(),
    ensures
        !sent(methods, 0, 0, handler, m),
        sent(methods, methods.entities().len() as int, 0, handler, m) <==> senders(
            methods@,
            handler,
        ).contains(m),
{
    let n = methods.entities().len() as int;
    if sent(methods, 0, 0, handler, m) {
        let a = choose|a: int|
            0 <= a < methods.entities().len() && #[trigger] methods.entities()[a] == m && ((a < 0
                && methods.items()[a].handler_order@.contains(handler)) || (a == 0
                && methods.items()[a].handler_order@.take(0).contains(handler)));
        let x = methods.items()[a].handler_order@.take(0).index_of(handler);
        assert(methods.items()[a].handler_order@.take(0)[x] == handler);
    }
    if sent(methods, n, 0, handler, m) {
        let a = choose|a: int|
            0 <= a < methods.entities().len() && #[trigger] methods.entities()[a] == m && ((a < n
                && methods.items()[a].handler_order@.contains(handler)) || (a == n
                && methods.items()[a].handler_order@.take(0).contains(handler)));
        methods.lemma_slot(a);
    }
    if senders(methods@, handler).contains(m) {
        let a = methods.entities().index_of(m);
        assert(methods.entities()[a] == m);
        methods.lemma_slot(a);
    }
}

/// A handler's state does not depend on how far the walk has come, as long
/// as the same methods have sent to it.
proof fn lemma_progress_moves<T: InputDataTrait, C>(
    before: InputHandler<T, C>,
    now: InputHandler<T, C>,
    methods: &EntityTable<InputMethod<T>>,
    i: int,
    k: int,
    i2: int,
    k2: int,
    handler: u64,
)
    requires
        progress(before, now, methods, i, k, handler),
        forall|m: u64|
            sent(methods, i, k, handler, m) <==> sent(methods, i2, k2, handler, m),
    ensures
        progress(before, now, methods, i2, k2, handler),
{
    assert forall|m: u64| #[trigger]
        now.current_frame().contains_key(m) <==> before.current_frame().contains_key(m) || sent(
            methods,
            i2,
            k2,
            handler,
            m,
        ) by {
        assert(sent(methods, i, k, handler, m) <==> sent(methods, i2, k2, handler, m));
    }
    assert forall|m: u64| #[trigger] sent(methods, i2, k2, handler, m) implies cloned(
        methods@[m].input_data,
        now.current_frame()[m],
    ) by {
        assert(sent(methods, i, k, handler, m));
    }
    assert forall|m: u64|
        before.current_frame().contains_key(m) && !sent(methods, i2, k2, handler, m)
            implies #[trigger] now.current_frame()[m] == before.current_frame()[m] by {
        assert(!sent(methods, i, k, handler, m));
    }
}

/// The handler named at place `k` of the list of the method in slot `i`
/// receives a copy of that method's payload.
proof fn lemma_progress_receives<T: InputDataTrait, C>(
    before: InputHandler<T, C>,
    was: InputHandler<T, C>,
    now: InputHandler<T, C>,
    methods: &EntityTable<InputMethod<T>>,
    i: int,
    k: int,
    handler: u64,
    payload: T,
)
    requires
        methods.wf(),
        0 <= i < methods.entities().len(),
        0 <= k < methods.items()[i].handler_order@.len(),
        methods.items()[i].handler_order@[k] == handler,
        progress(before, was, methods, i, k, handler),
        cloned(methods.items()[i].input_data, payload),
        now.current_frame() == was.current_frame().insert(methods.entities()[i], payload),
        now.previous_frame() == was.previous_frame(),
        now.capture_condition == was.capture_condition,
    ensures
        progress(before, now, methods, i, k + 1, handler),
{
    let sender = methods.entities()[i];
    methods.lemma_slot(i);
    assert forall|m: u64| #[trigger]
        now.current_frame().contains_key(m) <==> before.current_frame().contains_key(m) || sent(
            methods,
            i,
            k + 1,
            handler,
            m,
        ) by {
        lemma_sent_step(methods, i, k, handler, m);
        assert(was.current_frame().contains_key(m) <==> before.current_frame().contains_key(m)
            || sent(methods, i, k, handler, m));
    }
    assert forall|m: u64| #[trigger] sent(methods, i, k + 1, handler, m) implies cloned(
        methods@[m].input_data,
        now.current_frame()[m],
    ) by {
        lemma_sent_step(methods, i, k, handler, m);
        if m != sender {
            assert(sent(methods, i, k, handler, m));
        }
    }
    assert forall|m: u64|
        before.current_frame().contains_key(m) && !sent(methods, i, k + 1, handler, m)
            implies #[trigger] now.current_frame()[m] == before.current_frame()[m] by {
        lemma_sent_step(methods, i, k, handler, m);
        assert(!sent(methods, i, k, handler, m));
        assert(was.current_frame()[m] == before.current_frame()[m]);
    }
}

/// Behind the last method a handler has received what `delivered` says.
proof fn lemma_progress_done<T: InputDataTrait, C>(
    before: InputHandler<T, C>,
    after: InputHandler<T, C>,
    methods: &EntityTable<InputMethod<T>>,
    handler: u64,
)
    requires
        methods.wf(),
        progress(before, after, methods, methods.entities().len() as int, 0, handler),
    ensures
        delivered(before, after, methods@, handler),
{
    let n = methods.entities().len() as int;
    assert forall|m: u64|
        sent(methods, n, 0, handler, m) <==> #[trigger] senders(methods@, handler).contains(m) by {
        lemma_sent_ends(methods, handler, m);
    }
    assert forall|m: u64| #[trigger]
        after.current_frame().dom().contains(m) <==> before.current_frame().dom().union(
            senders(methods@, handler),
        ).contains(m) by {
        assert(after.current_frame().contains_key(m) <==> before.current_frame().contains_key(m)
            || sent(methods, n, 0, handler, m));
        lemma_sent_ends(methods, handler, m);
    }
    assert(after.current_frame().dom() =~= before.current_frame().dom().union(
        senders(methods@, handler),
    ));
    assert forall|m: u64| #[trigger] senders(methods@, handler).contains(m) implies cloned(
        methods@[m].input_data,
        after.current_frame()[m],
    ) by {
        lemma_sent_ends(methods, handler, m);
        assert(sent(methods, n, 0, handler, m));
    }
    assert forall|m: u64|
        before.current_frame().contains_key(m) && !senders(methods@, handler).contains(m)
            implies #[trigger] after.current_frame()[m] == before.current_frame()[m] by {
        lemma_sent_ends(methods, handler, m);
        assert(!sent(methods, n, 0, handler, m));
    }
}

/// The distribute phase: every method hands a copy of its payload to each
/// handler on its list, in the order of the list. A name on a list that no
/// handler bears is passed over: no handler is made for it, and the walk
/// goes on.
///
/// No capture condition is asked and `captured_by` is not read: every
/// handler on a list receives.
pub fn setup_input<T: InputDataTrait, C>(
    methods: &EntityTable<InputMethod<T>>,
    handlers: &mut EntityTable<InputHandler<T, C>>,
)
    ensures
        final(handlers).wf(),
        final(handlers).entities() == old(handlers).entities(),
        final(handlers)@.dom() == old(handlers)@.dom(),
        forall|h: u64| !old(handlers)@.contains_key(h) ==> !(#[trigger] final(handlers)@.contains_key(h)),
        forall|h: u64| #[trigger]
            old(handlers)@.contains_key(h) ==> delivered(
                old(handlers)@[h],
                final(handlers)@[h],
                methods@,
                h,
            ),
{
    let n = methods.len();
    let count = handlers.len();
    proof {
        assert forall|j: int| 0 <= j < count implies progress(
            old(handlers).items()[j],
            #[trigger] handlers.items()[j],
            methods,
            0,
            0,
            handlers.entities()[j],
        ) by {
            assert forall|m: u64| !sent(methods, 0, 0, handlers.entities()[j], m) by {
                lemma_sent_ends(methods, handlers.entities()[j], m);
            }
        }
    }
    let mut i: usize = 0;
    while i < n
        invariant
            i <= n,
            methods.wf(),
            n == methods.entities().len(),
            handlers.wf(),
            old(handlers).wf(),
            count == handlers.entities().len(),
            handlers.entities() == old(handlers).entities(),
            forall|j: int|
                0 <= j < count ==> progress(
                    old(handlers).items()[j],
                    #[trigger] handlers.items()[j],
                    methods,
                    i as int,
                    0,
                    handlers.entities()[j],
                ),
        decreases n - i,
    {
        let method_entity = methods.entity_at(i);
        let method = methods.item_at(i);
        let len = method.handler_order.len();
        let mut k: usize = 0;
        while k < len
            invariant
                k <= len,
                i < n,
                methods.wf(),
                n == methods.entities().len(),
                method_entity == methods.entities()[i as int],
                *method == methods.items()[i as int],
                len == method.handler_order@.len(),
                handlers.wf(),
                old(handlers).wf(),
                count == handlers.entities().len(),
                handlers.entities() == old(handlers).entities(),
                forall|j: int|
                    0 <= j < count ==> progress(
                        old(handlers).items()[j],
                        #[trigger] handlers.items()[j],
                        methods,
                        i as int,
                        k as int,
                        handlers.entities()[j],
                    ),
            decreases len - k,
        {
            let handler_entity = method.handler_order[k];
            let ghost mid = *handlers;
            match handlers.position(handler_entity) {
                Some(slot) => {
                    let payload = method.input_data.clone();
                    assert(cloned(method.input_data, payload));
                    handlers.item_mut(slot).receive(method_entity, payload);
                    proof {
                        assert forall|j: int| 0 <= j < count implies progress(
                            old(handlers).items()[j],
                            #[trigger] handlers.items()[j],
                            methods,
                            i as int,
                            k as int + 1,
                            handlers.entities()[j],
                        ) by {
                            let h = handlers.entities()[j];
                            let before = old(handlers).items()[j];
                            let was = mid.items()[j];
                            let now = handlers.items()[j];
                            assert(progress(before, was, methods, i as int, k as int, h));
                            if j == slot {
                                lemma_progress_receives(
                                    before,
                                    was,
                                    now,
                                    methods,
                                    i as int,
                                    k as int,
                                    h,
                                    payload,
                                );
                            } else {
                                assert(now == was);
                                assert(h != handler_entity);
                                assert forall|m: u64|
                                    sent(methods, i as int, k as int, h, m) <==> sent(
                                        methods,
                                        i as int,
                                        k as int + 1,
                                        h,
                                        m,
                                    ) by {
                                    lemma_sent_step(methods, i as int, k as int, h, m);
                                }
                                lemma_progress_moves(
                                    before,
                                    was,
                                    methods,
                                    i as int,
                                    k as int,
                                    i as int,
                                    k as int + 1,
                                    h,
                                );
                            }
                        }
                    }
                },
                None => {
                    proof {
                        assert forall|j: int| 0 <= j < count implies progress(
                            old(handlers).items()[j],
                            #[trigger] handlers.items()[j],
                            methods,
                            i as int,
                            k as int + 1,
                            handlers.entities()[j],
                        ) by {
                            let h = handlers.entities()[j];
                            handlers.lemma_slot(j);
                            assert(h != handler_entity);
                            assert forall|m: u64|
                                sent(methods, i as int, k as int, h, m) <==> sent(
                                    methods,
                                    i as int,
                                    k as int + 1,
                                    h,
                                    m,
                                ) by {
                                lemma_sent_step(methods, i as int, k as int, h, m);
                            }
                            lemma_progress_moves(
                                old(handlers).items()[j],
                                handlers.items()[j],
                                methods,
                                i as int,
                                k as int,
                                i as int,
                                k as int + 1,
                                h,
                            );
                        }
                    }
                },
            }
            k += 1;
        }
        proof {
            assert forall|j: int| 0 <= j < count implies progress(
                old(handlers).items()[j],
                #[trigger] handlers.items()[j],
                methods,
                i as int + 1,
                0,
                handlers.entities()[j],
            ) by {
                let h = handlers.entities()[j];
                assert forall|m: u64|
                    sent(methods, i as int, len as int, h, m) <==> sent(
                        methods,
                        i as int + 1,
                        0,
                        h,
                        m,
                    ) by {
                    lemma_sent_next(methods, i as int, h, m);
                }
                lemma_progress_moves(
                    old(handlers).items()[j],
                    handlers.items()[j],
                    methods,
                    i as int,
                    len as int,
                    i as int + 1,
                    0,
                    h,
                );
            }
        }
        i += 1;
    }
    proof {
        assert(final(handlers)@.dom() =~= old(handlers)@.dom());
        assert forall|h: u64| #[trigger] old(handlers)@.contains_key(h) implies delivered(
            old(handlers)@[h],
            final(handlers)@[h],
            methods@,
            h,
        ) by {
            let j = old(handlers).entities().index_of(h);
            assert(old(handlers).entities()[j] == h);
            old(handlers).lemma_slot(j);
            final(handlers).lemma_slot(j);
            lemma_progress_done(
                old(handlers).items()[j],
                final(handlers).items()[j],
                methods,
                h,
            );
        }
    }
}

} // verus!
