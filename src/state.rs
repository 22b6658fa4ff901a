//! The state instance: shape registry, display order, edit cursor and
//! surface binding, with the operations the host drives it by.
use std::collections::HashMap;
use vstd::prelude::*;
use vstd::set_lib::lemma_len_subset;

use crate::error::StateError;
use crate::identifier::random_token;
use crate::order::{copy_without, lemma_without_absent, lemma_without_contains, lemma_without_no_duplicates, position_of, without};
use crate::surface::{valid_dimensions, SurfaceBinding};

verus! {

broadcast use vstd::std_specs::hash::group_hash_axioms;

/// The abstract value of a state: the registry as a map from identifier to
/// shape, the paint order, the edit cursor and the surface dimensions.
pub struct StateView<S> {
    pub registry: Map<u128, S>,
    pub order: Seq<u128>,
    pub cursor: Option<u128>,
    pub width: int,
    pub height: int,
}

impl<S> StateView<S> {
    /// The order has no identifier twice and names only registered shapes,
    /// the cursor names a registered shape, and the surface is not empty.
    pub open spec fn wf(self) -> bool {
        &&& self.order.no_duplicates()
        &&& forall|i: int| 0 <= i < self.order.len() ==> self.registry.contains_key(#[trigger] self.order[i])
        &&& (self.cursor matches Some(c) ==> self.registry.contains_key(c))
        &&& valid_dimensions(self.width, self.height)
    }

    /// `self` with `shape` registered under `id`; the rest untouched.
    pub open spec fn with_shape(self, id: u128, shape: S) -> StateView<S> {
        StateView { registry: self.registry.insert(id, shape), ..self }
    }

    /// What `remove_shape(id)` leaves: the entry gone from the registry and
    /// from the order, and the cursor cleared where it named `id`.
    pub open spec fn after_remove(self, id: u128) -> StateView<S> {
        StateView {
            registry: self.registry.remove(id),
            order: without(self.order, id),
            cursor: if self.cursor == Some(id) { None } else { self.cursor },
            ..self
        }
    }

    /// The status of `append_to_display_list(id)`.
    pub open spec fn append_outcome(self, id: u128) -> Result<(), StateError> {
        if !self.registry.contains_key(id) {
            Err(StateError::NotFound)
        } else if self.order.contains(id) {
            Err(StateError::Duplicate)
        } else {
            Ok(())
        }
    }

    /// What `append_to_display_list(id)` leaves.
    pub open spec fn after_append(self, id: u128) -> StateView<S> {
        if self.append_outcome(id) is Ok {
            StateView { order: self.order.push(id), ..self }
        } else {
            self
        }
    }

    /// The status of `reorder_display_list(id, position)`.
    pub open spec fn reorder_outcome(self, id: u128, position: int) -> Result<(), StateError> {
        if position >= self.order.len() {
            Err(StateError::OutOfBounds)
        } else if !self.order.contains(id) {
            Err(StateError::NotFound)
        } else {
            Ok(())
        }
    }

    /// What `reorder_display_list(id, position)` leaves: on success `id`
    /// taken from its place and put at `position`, the others shifting.
    pub open spec fn after_reorder(self, id: u128, position: int) -> StateView<S> {
        if self.reorder_outcome(id, position) is Ok {
            StateView {
                order: self.order.remove(self.order.index_of(id)).insert(position, id),
                ..self
            }
        } else {
            self
        }
    }

    /// The status of `begin_edit(id)`.
    pub open spec fn edit_outcome(self, id: u128) -> Result<(), StateError> {
        if self.registry.contains_key(id) {
            Ok(())
        } else {
            Err(StateError::NotFound)
        }
    }

    /// What `begin_edit(id)` leaves: the cursor on `id`, whatever it was on.
    pub open spec fn after_edit(self, id: u128) -> StateView<S> {
        if self.registry.contains_key(id) {
            StateView { cursor: Some(id), ..self }
        } else {
            self
        }
    }

    /// What `resize_surface(width, height)` leaves.
    pub open spec fn after_resize(self, width: int, height: int) -> StateView<S> {
        if valid_dimensions(width, height) {
            StateView { width, height, ..self }
        } else {
            self
        }
    }
}

/// The state of one rendering session. The registry owns every shape; the
/// display order and the edit cursor hold identifiers only, resolved through
/// the registry on each access.
pub struct State<S> {
    surface: SurfaceBinding,
    current_id: Option<u128>,
    shapes: HashMap<u128, S>,
    display_list: Vec<u128>,
}

impl<S> View for State<S> {
    type V = StateView<S>;

    closed spec fn view(&self) -> StateView<S> {
        StateView {
            registry: self.shapes@,
            order: self.display_list@,
            cursor: self.current_id,
            width: self.surface.spec_width(),
            height: self.surface.spec_height(),
        }
    }
}

/// The identifiers below `n` are `n` in number.
proof fn lemma_count_below(n: u128)
    ensures
        Set::new(|j: u128| j < n).finite(),
        Set::new(|j: u128| j < n).len() == n,
    decreases n,
{
    if n == 0 {
        assert(Set::new(|j: u128| j < n) =~= Set::<u128>::empty());
    } else {
        let m = (n - 1) as u128;
        lemma_count_below(m);
        assert(Set::new(|j: u128| j < n) =~= Set::new(|j: u128| j < m).insert(m));
    }
}

impl<S> State<S> {
    pub closed spec fn wf(&self) -> bool {
        &&& self@.wf()
        &&& self.surface.wf()
    }

    /// A fresh state with a surface of `width` by `height` pixels, room for
    /// `capacity` shapes, no shapes, an empty order and no cursor. Fails with
    /// `InvalidDimensions` unless both dimensions are positive.
    pub fn with_capacity(width: i32, height: i32, capacity: usize) -> (r: Result<State<S>, StateError>)
        ensures
            match r {
                Ok(s) => valid_dimensions(width as int, height as int) && s.wf()
                    && s@.registry == Map::<u128, S>::empty() && s@.order == Seq::<u128>::empty()
                    && s@.cursor is None && s@.width == width && s@.height == height,
                Err(e) => !valid_dimensions(width as int, height as int)
                    && e == StateError::InvalidDimensions,
            },
    {
        match SurfaceBinding::new(width, height) {
            Ok(surface) => Ok(State {
                surface,
                current_id: None,
                shapes: HashMap::with_capacity(capacity),
                display_list: Vec::with_capacity(capacity),
            }),
            Err(e) => Err(e),
        }
    }

    /// The identifier that a new shape gets when `candidate` was drawn:
    /// `candidate` itself where no shape holds it, else the least identifier
    /// that no shape holds.
    pub fn pick_identifier(&self, candidate: u128) -> (r: u128)
        ensures
            !self@.registry.contains_key(r),
            !self@.registry.contains_key(candidate) ==> r == candidate,
            self@.registry.contains_key(candidate) ==> forall|j: u128|
                j < r ==> self@.registry.contains_key(j),
    {
        if !self.shapes.contains_key(&candidate) {
            return candidate;
        }
        proof {
            assert(self.shapes.len() == self.shapes@.len());
        }
        let mut c: u128 = 0;
        while self.shapes.contains_key(&c)
            invariant
                forall|j: u128| j < c ==> self.shapes@.contains_key(j),
                c <= self.shapes@.len(),
                self.shapes@.len() <= usize::MAX,
            decreases self.shapes@.len() - c,
        {
            proof {
                let below = Set::new(|j: u128| j < (c + 1) as u128);
                lemma_count_below((c + 1) as u128);
                assert(below.subset_of(self.shapes@.dom()));
                lemma_len_subset(below, self.shapes@.dom());
            }
            c = c + 1;
        }
        c
    }

    /// Registers `shape` under a fresh identifier drawn at random, and returns
    /// that identifier. No shape held it before; nothing else changes.
    pub fn create_shape(&mut self, shape: S) -> (id: u128)
        requires
            old(self).wf(),
        ensures
            final(self).wf(),
            !old(self)@.registry.contains_key(id),
            final(self)@ == old(self)@.with_shape(id, shape),
    {
        let candidate = random_token();
        let id = self.pick_identifier(candidate);
        self.shapes.insert(id, shape);
        id
    }

    /// The shape registered under `id`, if any.
    pub fn get(&self, id: u128) -> (r: Option<&S>)
        ensures
            match r {
                Some(s) => self@.registry.contains_key(id) && *s == self@.registry[id],
                None => !self@.registry.contains_key(id),
            },
    {
        self.shapes.get(&id)
    }

    /// The number of registered shapes.
    pub fn shape_count(&self) -> (r: usize)
        ensures
            r == self@.registry.len(),
    {
        self.shapes.len()
    }

    /// Deletes the shape registered under `id` and reports whether there was
    /// one. The identifier also leaves the display order, and the cursor is
    /// cleared where it named it.
    pub fn remove_shape(&mut self, id: u128) -> (r: bool)
        requires
            old(self).wf(),
        ensures
            final(self).wf(),
            r == old(self)@.registry.contains_key(id),
            final(self)@ == old(self)@.after_remove(id),
    {
        let removed = self.shapes.remove(&id);
        self.display_list = copy_without(&self.display_list, id);
        match self.current_id {
            Some(c) => {
                if c == id {
                    self.current_id = None;
                }
            },
            None => {},
        }
        proof {
            let pre = old(self)@;
            lemma_without_no_duplicates(pre.order, id);
            assert forall|i: int| 0 <= i < self@.order.len() implies self@.registry.contains_key(
                #[trigger] self@.order[i],
            ) by {
                let x = self@.order[i];
                lemma_without_contains(pre.order, id, x);
                assert(self@.order.contains(x));
                let k = choose|k: int| 0 <= k < pre.order.len() && pre.order[k] == x;
                assert(pre.registry.contains_key(pre.order[k]));
            }
            assert(self@ == pre.after_remove(id));
        }
        removed.is_some()
    }

    /// Takes `id` out of the display order where it stands there; the
    /// registry keeps the shape.
    pub fn remove_from_display_list(&mut self, id: u128)
        requires
            old(self).wf(),
        ensures
            final(self).wf(),
            final(self)@ == (StateView { order: without(old(self)@.order, id), ..old(self)@ }),
            !old(self)@.order.contains(id) ==> final(self)@ == old(self)@,
    {
        self.display_list = copy_without(&self.display_list, id);
        proof {
            let pre = old(self)@;
            if !pre.order.contains(id) {
                lemma_without_absent(pre.order, id);
            }
            lemma_without_no_duplicates(pre.order, id);
            assert forall|i: int| 0 <= i < self@.order.len() implies self@.registry.contains_key(
                #[trigger] self@.order[i],
            ) by {
                let x = self@.order[i];
                lemma_without_contains(pre.order, id, x);
                assert(self@.order.contains(x));
                let k = choose|k: int| 0 <= k < pre.order.len() && pre.order[k] == x;
                assert(pre.registry.contains_key(pre.order[k]));
            }
        }
    }

    /// Puts `id` at the end of the display order (the front of the paint).
    /// Fails with `NotFound` where no shape holds `id`, and with `Duplicate`
    /// where the order already holds it.
    pub fn append_to_display_list(&mut self, id: u128) -> (r: Result<(), StateError>)
        requires
            old(self).wf(),
        ensures
            final(self).wf(),
            r == old(self)@.append_outcome(id),
            final(self)@ == old(self)@.after_append(id),
    {
        if !self.shapes.contains_key(&id) {
            return Err(StateError::NotFound);
        }
        match position_of(&self.display_list, id) {
            Some(_) => Err(StateError::Duplicate),
            None => {
                self.display_list.push(id);
                proof {
                    let pre = old(self)@;
                    assert forall|i: int, j: int|
                        0 <= i < self@.order.len() && 0 <= j < self@.order.len() && i != j
                        implies self@.order[i] != self@.order[j] by {
                        if i < pre.order.len() && j < pre.order.len() {
                        } else if i < pre.order.len() {
                            assert(pre.order[i] != id);
                        } else {
                            assert(pre.order[j] != id);
                        }
                    }
                    assert forall|i: int| 0 <= i < self@.order.len() implies self@.registry.contains_key(
                        #[trigger] self@.order[i],
                    ) by {
                        if i < pre.order.len() {
                            assert(self@.order[i] == pre.order[i]);
                        }
                    }
                }
                Ok(())
            },
        }
    }

    /// Moves `id` to index `position` of the display order, the entries
    /// between shifting by one. Fails with `OutOfBounds` where `position` is
    /// not below the order's length, else with `NotFound` where the order
    /// does not hold `id`. A position equal to the current index changes
    /// nothing.
    pub fn reorder_display_list(&mut self, id: u128, position: usize) -> (r: Result<(), StateError>)
        requires
            old(self).wf(),
        ensures
            final(self).wf(),
            r == old(self)@.reorder_outcome(id, position as int),
            final(self)@ == old(self)@.after_reorder(id, position as int),
    {
        if position >= self.display_list.len() {
            return Err(StateError::OutOfBounds);
        }
        match position_of(&self.display_list, id) {
            None => Err(StateError::NotFound),
            Some(i) => {
                let ghost pre = old(self)@;
                proof {
                    assert(pre.order.contains(id));
                    let k = pre.order.index_of(id);
                    assert(pre.order[k] == id);
                    assert(k == i as int);
                }
                self.display_list.remove(i);
                let ghost mid = self.display_list@;
                proof {
                    assert(!mid.contains(id)) by {
                        if mid.contains(id) {
                            let k = choose|k: int| 0 <= k < mid.len() && mid[k] == id;
                            if k < i {
                                assert(pre.order[k] == id);
                            } else {
                                assert(pre.order[k + 1] == id);
                            }
                        }
                    }
                    assert(mid.no_duplicates()) by {
                        assert forall|a: int, b: int|
                            0 <= a < mid.len() && 0 <= b < mid.len() && a != b implies mid[a] != mid[b] by {
                            let a2 = if a < i { a } else { a + 1 };
                            let b2 = if b < i { b } else { b + 1 };
                            assert(mid[a] == pre.order[a2]);
                            assert(mid[b] == pre.order[b2]);
                        }
                    }
                }
                self.display_list.insert(position, id);
                proof {
                    let now = self@.order;
                    let p = position as int;
                    assert forall|a: int, b: int|
                        0 <= a < now.len() && 0 <= b < now.len() && a != b implies now[a] != now[b] by {
                        if a != p && b != p {
                            let a2 = if a < p { a } else { a - 1 };
                            let b2 = if b < p { b } else { b - 1 };
                            assert(now[a] == mid[a2]);
                            assert(now[b] == mid[b2]);
                        } else if a == p {
                            let b2 = if b < p { b } else { b - 1 };
                            assert(now[b] == mid[b2]);
                        } else {
                            let a2 = if a < p { a } else { a - 1 };
                            assert(now[a] == mid[a2]);
                        }
                    }
                    assert forall|a: int| 0 <= a < now.len() implies self@.registry.contains_key(
                        #[trigger] now[a],
                    ) by {
                        if a != p {
                            let a2 = if a < p { a } else { a - 1 };
                            let a3 = if a2 < i { a2 } else { a2 + 1 };
                            assert(now[a] == mid[a2]);
                            assert(mid[a2] == pre.order[a3]);
                        }
                    }
                }
                Ok(())
            },
        }
    }

    /// The display order, painted from index 0 (back) to the last (front).
    pub fn display_list(&self) -> (r: &[u128])
        ensures
            r@ == self@.order,
    {
        self.display_list.as_slice()
    }

    /// Puts the edit cursor on `id`, ending any edit that was active. Fails
    /// with `NotFound` where no shape holds `id`.
    pub fn begin_edit(&mut self, id: u128) -> (r: Result<(), StateError>)
        requires
            old(self).wf(),
        ensures
            final(self).wf(),
            r == old(self)@.edit_outcome(id),
            final(self)@ == old(self)@.after_edit(id),
    {
        if self.shapes.contains_key(&id) {
            self.current_id = Some(id);
            Ok(())
        } else {
            Err(StateError::NotFound)
        }
    }

    /// Clears the edit cursor; nothing happens where none is set.
    pub fn end_edit(&mut self)
        requires
            old(self).wf(),
        ensures
            final(self).wf(),
            final(self)@ == (StateView { cursor: None, ..old(self)@ }),
    {
        self.current_id = None;
    }

    /// The identifier under the edit cursor, if any.
    pub fn current_id(&self) -> (r: Option<u128>)
        ensures
            r == self@.cursor,
    {
        self.current_id
    }

    /// The shape under the edit cursor, resolved through the registry.
    pub fn current_shape(&self) -> (r: Option<&S>)
        requires
            self.wf(),
        ensures
            match self@.cursor {
                Some(c) => r is Some && *r->0 == self@.registry[c],
                None => r is None,
            },
    {
        match self.current_id {
            Some(c) => self.shapes.get(&c),
            None => None,
        }
    }

    /// Writes `shape` in place of the shape under the edit cursor and hands
    /// back the one it replaces. Fails with `NotFound` where no edit is
    /// active.
    pub fn replace_current_shape(&mut self, shape: S) -> (r: Result<S, StateError>)
        requires
            old(self).wf(),
        ensures
            final(self).wf(),
            match old(self)@.cursor {
                Some(c) => r == Ok::<S, StateError>(old(self)@.registry[c])
                    && final(self)@ == old(self)@.with_shape(c, shape),
                None => r == Err::<S, StateError>(StateError::NotFound)
                    && final(self)@ == old(self)@,
            },
    {
        match self.current_id {
            Some(c) => {
                match self.shapes.insert(c, shape) {
                    Some(previous) => Ok(previous),
                    None => Err(StateError::NotFound),
                }
            },
            None => Err(StateError::NotFound),
        }
    }

    /// Rebinds the surface to a new target of `width` by `height` pixels.
    /// Fails with `InvalidDimensions` unless both are positive, the binding
    /// then staying as it was.
    pub fn resize_surface(&mut self, width: i32, height: i32) -> (r: Result<(), StateError>)
        requires
            old(self).wf(),
        ensures
            final(self).wf(),
            r is Ok <==> valid_dimensions(width as int, height as int),
            r is Err ==> r == Err::<(), StateError>(StateError::InvalidDimensions),
            final(self)@ == old(self)@.after_resize(width as int, height as int),
    {
        match SurfaceBinding::new(width, height) {
            Ok(b) => {
                self.surface = b;
                Ok(())
            },
            Err(e) => Err(e),
        }
    }

    /// Swaps in `surface` as the drawing target; the old one is dropped here.
    /// The shapes, the order and the cursor stay as they were.
    pub fn set_surface(&mut self, surface: SurfaceBinding)
        requires
            old(self).wf(),
            surface.wf(),
        ensures
            final(self).wf(),
            final(self)@ == (StateView {
                width: surface.spec_width(),
                height: surface.spec_height(),
                ..old(self)@
            }),
    {
        self.surface = surface;
    }

    /// The current drawing target.
    pub fn surface(&self) -> (r: &SurfaceBinding)
        requires
            self.wf(),
        ensures
            r.wf(),
            r.spec_width() == self@.width,
            r.spec_height() == self@.height,
    {
        &self.surface
    }
}

} // verus!
