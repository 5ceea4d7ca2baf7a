//! The world: an arena of entity slots holding fields, forms and buttons,
//! plus the process-wide focus token.
//!
//! Focus is an explicit optional handle held by the world and mutated only
//! by the focus arbiter, never inferred by scanning: at most one field
//! carries the active flag at any observable instant, and the flag agrees
//! with the focus slot. Assignment is a single atomic replace within one
//! processing pass.

use vstd::pervasive::unreached;
use vstd::pervasive::VecAdditionalExecFns;
use vstd::prelude::*;

use crate::button::{Button, ButtonModel};
use crate::entity::Entity;
use crate::form::{Form, FormModel};
use crate::form_element::{next_status, reconciled_form, revalidate, Field, FieldModel};
use crate::text_input::{chars_eq, clone_chars, keys_step, keys_submissions, strip_newlines, Key};

verus! {

/// One arena slot: the role attached to a handle, or nothing.
pub enum Slot {
    /// No entity lives at this handle.
    Empty,
    /// The handle is an input field.
    Field(Field),
    /// The handle is a form.
    Form(Form),
    /// The handle is an action button.
    Button(Button),
}

/// The world: the slot arena and the focus token.
pub struct World {
    /// The entity slots; a handle is an index into this arena.
    pub slots: Vec<Slot>,
    /// The one field currently holding focus, if any.
    pub focus: Option<Entity>,
}

impl World {
    /// Whether a handle names a live field.
    pub open spec fn is_field(self, e: Entity) -> bool {
        e.0 < self.slots@.len() && self.slots@[e.0 as int] is Field
    }

    /// The model of the field at a handle.
    pub open spec fn field(self, e: Entity) -> FieldModel {
        self.slots@[e.0 as int]->Field_0@
    }

    /// Whether a handle names a live form.
    pub open spec fn is_form(self, e: Entity) -> bool {
        e.0 < self.slots@.len() && self.slots@[e.0 as int] is Form
    }

    /// The model of the form at a handle.
    pub open spec fn form(self, e: Entity) -> FormModel {
        self.slots@[e.0 as int]->Form_0@
    }

    /// Whether a handle names a live button.
    pub open spec fn is_button(self, e: Entity) -> bool {
        e.0 < self.slots@.len() && self.slots@[e.0 as int] is Button
    }

    /// The model of the button at a handle.
    pub open spec fn button(self, e: Entity) -> ButtonModel {
        self.slots@[e.0 as int]->Button_0@
    }

    /// Well-formedness: the focus token names a live field; a field is
    /// active exactly when it holds the token — so at most one field is
    /// active at any instant —; and every field and form is well-formed.
    pub open spec fn wf(self) -> bool {
        &&& (match self.focus {
            Some(e) => self.is_field(e),
            None => true,
        })
        &&& (forall|i: int|
            0 <= i < self.slots@.len() && (#[trigger] self.slots@[i]) is Field ==> (
            self.slots@[i]->Field_0@.active <==> self.focus == Some(Entity(i as usize))))
        &&& (forall|i: int|
            0 <= i < self.slots@.len() && (#[trigger] self.slots@[i]) is Field
                ==> self.slots@[i]->Field_0@.wf())
        &&& (forall|i: int|
            0 <= i < self.slots@.len() && (#[trigger] self.slots@[i]) is Form
                ==> self.slots@[i]->Form_0@.wf())
    }

    /// A fresh world: no entities, no focus.
    pub fn new() -> (w: World)
        ensures
            w.wf(),
            w.slots@.len() == 0,
            w.focus is None,
    {
        World { slots: Vec::new(), focus: None }
    }

    /// Move the slot at an index out of the arena, leaving it empty.
    pub(crate) fn take_slot(&mut self, i: usize) -> (s: Slot)
        requires
            i < old(self).slots@.len(),
        ensures
            s == old(self).slots@[i as int],
            final(self).slots@ == old(self).slots@.update(i as int, Slot::Empty),
            final(self).focus == old(self).focus,
    {
        let mut s = Slot::Empty;
        self.slots.set_and_swap(i, &mut s);
        s
    }

    /// Put a slot back at an index.
    pub(crate) fn put_slot(&mut self, i: usize, s: Slot)
        requires
            i < old(self).slots@.len(),
        ensures
            final(self).slots@ == old(self).slots@.update(i as int, s),
            final(self).focus == old(self).focus,
    {
        self.slots.set(i, s);
    }

    /// Spawn an entity: the slot is appended and its fresh handle returned.
    /// A spawned field starts inactive; focus is granted only by the focus
    /// arbiter.
    pub fn spawn(&mut self, s: Slot) -> (e: Entity)
        requires
            old(self).wf(),
            s matches Slot::Field(f) ==> f@.wf() && !f@.active,
            s matches Slot::Form(f) ==> f@.wf(),
        ensures
            final(self).wf(),
            e.0 == old(self).slots@.len(),
            final(self).slots@ == old(self).slots@.push(s),
            final(self).focus == old(self).focus,
    {
        let e = Entity(self.slots.len());
        self.slots.push(s);
        proof {
            match self.focus {
                Some(f) => {
                    assert(self.slots@[f.0 as int] is Field);
                },
                None => (),
            }
        }
        e
    }

    /// Read the field at a handle.
    pub fn field_ref(&self, e: Entity) -> (r: &Field)
        requires
            self.is_field(e),
        ensures
            r@ == self.field(e),
    {
        match &self.slots[e.0] {
            Slot::Field(f) => f,
            _ => unreached(),
        }
    }

    /// Read the form at a handle.
    pub fn form_ref(&self, e: Entity) -> (r: &Form)
        requires
            self.is_form(e),
        ensures
            r@ == self.form(e),
    {
        match &self.slots[e.0] {
            Slot::Form(f) => f,
            _ => unreached(),
        }
    }

    /// Read the button at a handle.
    pub fn button_ref(&self, e: Entity) -> (r: &Button)
        requires
            self.is_button(e),
        ensures
            r@ == self.button(e),
    {
        match &self.slots[e.0] {
            Slot::Button(b) => b,
            _ => unreached(),
        }
    }
}

/// The focus token is exclusive: under the world invariant, two active
/// fields are one and the same.
pub proof fn lemma_focus_exclusive(w: World, i: int, j: int)
    requires
        w.wf(),
        0 <= i < w.slots@.len(),
        0 <= j < w.slots@.len(),
        w.slots@[i] is Field,
        w.slots@[j] is Field,
        w.slots@[i]->Field_0@.active,
        w.slots@[j]->Field_0@.active,
    ensures
        i == j,
{
    vstd::std_specs::vec::axiom_spec_len(&w.slots);
    assert(w.focus == Some(Entity(i as usize)));
    assert(w.focus == Some(Entity(j as usize)));
    assert(i as usize == j as usize);
}

/// What one atomic focus transfer leaves behind: the focus token moved to
/// the new holder, every field's active flag agreeing with it, the newly
/// focused field marked touched, and everything else untouched.
pub open spec fn focus_transferred(pre: World, post: World, new_focus: Option<Entity>) -> bool {
    &&& post.focus == new_focus
    &&& post.slots@.len() == pre.slots@.len()
    &&& forall|i: int|
        0 <= i < pre.slots@.len() && !((#[trigger] pre.slots@[i]) is Field) ==> post.slots@[i]
            == pre.slots@[i]
    &&& forall|i: int|
        0 <= i < pre.slots@.len() && (#[trigger] pre.slots@[i]) is Field ==> {
            &&& post.slots@[i] is Field
            &&& post.slots@[i]->Field_0@ == (FieldModel {
                active: new_focus == Some(Entity(i as usize)),
                touched: pre.slots@[i]->Field_0@.touched || new_focus == Some(
                    Entity(i as usize),
                ),
                ..pre.slots@[i]->Field_0@
            })
        }
}

impl World {
    /// Transfer the focus token in one atomic replace: the target field —
    /// when the press or navigation names a live field — gains focus, every
    /// other field loses it, and a press outside all fields clears focus
    /// entirely. Gaining focus sets the active flag and marks the field
    /// touched, permanently; losing focus clears the active flag.
    pub fn set_focus(&mut self, target: Option<Entity>)
        requires
            old(self).wf(),
        ensures
            final(self).wf(),
            focus_transferred(
                *old(self),
                *final(self),
                match target {
                    Some(e) => if old(self).is_field(e) {
                        Some(e)
                    } else {
                        None::<Entity>
                    },
                    None => None::<Entity>,
                },
            ),
    {
        let valid_target: Option<Entity> = match target {
            Some(e) => {
                if e.0 < self.slots.len() {
                    let is_field = match &self.slots[e.0] {
                        Slot::Field(_) => true,
                        _ => false,
                    };
                    if is_field {
                        Some(e)
                    } else {
                        None
                    }
                } else {
                    None
                }
            },
            None => None,
        };
        let ghost w0 = *self;
        let n = self.slots.len();
        let mut i: usize = 0;
        while i < n
            invariant
                n == w0.slots@.len(),
                i <= n,
                self.slots@.len() == n,
                self.focus == w0.focus,
                valid_target == (match target {
                    Some(e) => if w0.is_field(e) {
                        Some(e)
                    } else {
                        None::<Entity>
                    },
                    None => None::<Entity>,
                }),
                forall|j: int| i <= j < n ==> self.slots@[j] == w0.slots@[j],
                forall|j: int|
                    0 <= j < i && !((#[trigger] w0.slots@[j]) is Field) ==> self.slots@[j]
                        == w0.slots@[j],
                forall|j: int|
                    0 <= j < i && (#[trigger] w0.slots@[j]) is Field ==> {
                        &&& self.slots@[j] is Field
                        &&& self.slots@[j]->Field_0@ == (FieldModel {
                            active: valid_target == Some(Entity(j as usize)),
                            touched: w0.slots@[j]->Field_0@.touched || valid_target == Some(
                                Entity(j as usize),
                            ),
                            ..w0.slots@[j]->Field_0@
                        })
                    },
            decreases n - i,
        {
            let s = self.take_slot(i);
            match s {
                Slot::Field(mut f) => {
                    let gained = match valid_target {
                        Some(t) => t.0 == i,
                        None => false,
                    };
                    f.active = gained;
                    if gained {
                        f.touched = true;
                    }
                    self.put_slot(i, Slot::Field(f));
                },
                other => {
                    self.put_slot(i, other);
                },
            }
            i = i + 1;
        }
        self.focus = valid_target;
        proof {
            assert forall|k: int|
                0 <= k < n && (#[trigger] self.slots@[k]) is Field implies {
                &&& (self.slots@[k]->Field_0@.active <==> self.focus == Some(Entity(k as usize)))
                &&& self.slots@[k]->Field_0@.wf()
            } by {
                assert(w0.slots@[k] is Field);
            }
            assert forall|k: int|
                0 <= k < n && (#[trigger] self.slots@[k]) is Form implies self.slots@[k]->Form_0@.wf() by {
                assert(w0.slots@[k] is Form);
            }
            match self.focus {
                Some(e) => {
                    assert(w0.slots@[e.0 as int] is Field);
                    assert(self.slots@[e.0 as int] is Field);
                },
                None => (),
            }
        }
    }
}

/// The fields among a form's children that carry a declared tab order, in
/// child order, each paired with its order. Only these participate in tab
/// navigation.
pub open spec fn tab_candidates(w: World, children: Seq<Entity>) -> Seq<(Entity, usize)>
    decreases children.len(),
{
    if children.len() == 0 {
        Seq::empty()
    } else {
        tab_candidates(w, children.drop_last()) + {
            let e = children.last();
            if w.is_field(e) && w.field(e).order is Some {
                seq![(e, w.field(e).order->0)]
            } else {
                Seq::empty()
            }
        }
    }
}

/// Among the candidates with declared order strictly above a bound, the one
/// with the smallest order, the earliest on a tie; nothing when no
/// candidate lies above the bound.
pub open spec fn first_min_above(s: Seq<(Entity, usize)>, lo: int) -> Option<(Entity, usize)>
    decreases s.len(),
{
    if s.len() == 0 {
        None
    } else {
        let rest = first_min_above(s.drop_last(), lo);
        if s.last().1 > lo {
            match rest {
                Some(r) => if (s.last().1 as int) < (r.1 as int) {
                    Some(s.last())
                } else {
                    Some(r)
                },
                None => Some(s.last()),
            }
        } else {
            rest
        }
    }
}

/// A selected candidate is one of the candidates.
pub proof fn lemma_first_min_above_in(s: Seq<(Entity, usize)>, lo: int)
    ensures
        first_min_above(s, lo) matches Some(t) ==> s.contains(t),
    decreases s.len(),
{
    if s.len() > 0 {
        lemma_first_min_above_in(s.drop_last(), lo);
        match first_min_above(s.drop_last(), lo) {
            Some(r) => {
                assert(s.drop_last().contains(r) ==> s.contains(r));
            },
            None => (),
        }
        assert(s[s.len() - 1] == s.last());
    }
}

/// Every tab candidate is a live field.
pub proof fn lemma_tab_candidates_fields(w: World, children: Seq<Entity>)
    ensures
        forall|i: int|
            0 <= i < tab_candidates(w, children).len() ==> w.is_field(
                (#[trigger] tab_candidates(w, children)[i]).0,
            ),
    decreases children.len(),
{
    if children.len() > 0 {
        lemma_tab_candidates_fields(w, children.drop_last());
        let pre = tab_candidates(w, children.drop_last());
        let whole = tab_candidates(w, children);
        assert forall|i: int| 0 <= i < whole.len() implies w.is_field((#[trigger] whole[i]).0) by {
            if i < pre.len() {
                assert(whole[i] == pre[i]);
            } else {
                assert(whole[i] == whole[whole.len() - 1]);
            }
        }
    }
}

/// The tab order the focus currently sits at: the focused field's declared
/// order, or zero when no field is focused or the focused field declares
/// none.
pub open spec fn current_tab_order(w: World) -> int {
    match w.focus {
        Some(e) => if w.is_field(e) {
            match w.field(e).order {
                Some(o) => o as int,
                None => 0,
            }
        } else {
            0
        },
        None => 0,
    }
}

/// Where a tab key-release sends the focus: among the form's ordered
/// children, the field with the smallest declared order strictly greater
/// than the current one; when none exists, the field with the globally
/// smallest declared order; nothing when no child declares an order.
pub open spec fn next_tab_target(w: World, form: Entity) -> Option<Entity> {
    let cands = tab_candidates(w, w.form(form).fields);
    match first_min_above(cands, current_tab_order(w)) {
        Some(t) => Some(t.0),
        None => match first_min_above(cands, -1) {
            Some(t) => Some(t.0),
            None => None,
        },
    }
}

/// Among candidates above a bound, the first one with the smallest order.
fn find_first_min_above(cands: &Vec<(Entity, usize)>, lo_exclusive: Option<usize>) -> (r: Option<
    (Entity, usize),
>)
    ensures
        r == first_min_above(
            cands@,
            match lo_exclusive {
                Some(l) => l as int,
                None => -1,
            },
        ),
{
    let ghost lo: int = match lo_exclusive {
        Some(l) => l as int,
        None => -1,
    };
    let mut best: Option<(Entity, usize)> = None;
    let mut i: usize = 0;
    while i < cands.len()
        invariant
            i <= cands@.len(),
            best == first_min_above(cands@.take(i as int), lo),
            lo == (match lo_exclusive {
                Some(l) => l as int,
                None => -1,
            }),
        decreases cands@.len() - i,
    {
        let c = cands[i];
        proof {
            assert(cands@.take(i as int + 1).drop_last() =~= cands@.take(i as int));
            assert(cands@.take(i as int + 1).last() == c);
        }
        let above = match lo_exclusive {
            Some(l) => c.1 > l,
            None => true,
        };
        if above {
            best = match best {
                Some(b) => if c.1 < b.1 {
                    Some(c)
                } else {
                    Some(b)
                },
                None => Some(c),
            };
        }
        i = i + 1;
    }
    proof {
        assert(cands@.take(cands@.len() as int) =~= cands@);
    }
    best
}

/// Copy a list of handles.
pub fn clone_entities(v: &Vec<Entity>) -> (r: Vec<Entity>)
    ensures
        r@ == v@,
{
    let mut r: Vec<Entity> = Vec::new();
    let mut i: usize = 0;
    while i < v.len()
        invariant
            i <= v@.len(),
            r@ == v@.take(i as int),
        decreases v@.len() - i,
    {
        r.push(v[i]);
        proof {
            assert(r@ =~= v@.take(i as int + 1));
        }
        i = i + 1;
    }
    proof {
        assert(r@ =~= v@);
    }
    r
}

impl World {
    /// React to a tab key-release while a form has focus context: transfer
    /// the focus token to the next field by declared order — wrapping to
    /// the smallest order when none lies above the current one — or leave
    /// the world untouched when no child of the form declares an order.
    pub fn tab_navigate(&mut self, form: Entity)
        requires
            old(self).wf(),
            old(self).is_form(form),
        ensures
            final(self).wf(),
            match next_tab_target(*old(self), form) {
                Some(t) => final(self).focus == Some(t) && focus_transferred(
                    *old(self),
                    *final(self),
                    Some(t),
                ),
                None => *final(self) == *old(self),
            },
    {
        let children = {
            let f = self.form_ref(form);
            clone_entities(&f.fields)
        };
        let mut cands: Vec<(Entity, usize)> = Vec::new();
        let mut i: usize = 0;
        while i < children.len()
            invariant
                i <= children@.len(),
                cands@ == tab_candidates(*self, children@.take(i as int)),
            decreases children@.len() - i,
        {
            let e = children[i];
            proof {
                assert(children@.take(i as int + 1).drop_last() =~= children@.take(i as int));
                assert(children@.take(i as int + 1).last() == e);
            }
            if e.index() < self.slots.len() {
                match &self.slots[e.index()] {
                    Slot::Field(f) => {
                        match f.order {
                            Some(o) => cands.push((e, o)),
                            None => (),
                        }
                    },
                    _ => (),
                }
            }
            i = i + 1;
        }
        proof {
            assert(children@.take(children@.len() as int) =~= children@);
        }
        let current: usize = match self.focus {
            Some(e) => {
                if e.0 < self.slots.len() {
                    match &self.slots[e.0] {
                        Slot::Field(f) => match f.order {
                            Some(o) => o,
                            None => 0,
                        },
                        _ => 0,
                    }
                } else {
                    0
                }
            },
            None => 0,
        };
        let next = match find_first_min_above(&cands, Some(current)) {
            Some(t) => Some(t),
            None => find_first_min_above(&cands, None),
        };
        proof {
            lemma_first_min_above_in(cands@, current as int);
            lemma_first_min_above_in(cands@, -1);
            lemma_tab_candidates_fields(*self, children@);
            match next {
                Some(t) => {
                    let idx = choose|j: int| 0 <= j < cands@.len() && cands@[j] == t;
                    assert(self.is_field(t.0));
                },
                None => (),
            }
        }
        match next {
            Some(t) => {
                self.set_focus(Some(t.0));
            },
            None => (),
        }
    }
}

/// Notification that a field submitted its value: the field's handle and a
/// copy of the value as it stood at submit time.
#[derive(Debug)]
pub struct TextInputSubmit {
    /// The submitting field.
    pub entity: Entity,
    /// The value at submit time.
    pub value: Vec<char>,
}

impl World {
    /// Validate one field against its current value and reconcile its
    /// parent form's aggregate error list with the outcome. A field whose
    /// parent handle names no live form only has its own status updated.
    pub fn validate_field(&mut self, e: Entity)
        requires
            old(self).wf(),
            old(self).is_field(e),
        ensures
            final(self).wf(),
            final(self).focus == old(self).focus,
            ({
                let fm = old(self).field(e);
                let new_field = FieldModel {
                    status: next_status(fm.status, fm.input.value, fm.optional, e),
                    ..fm
                };
                &&& final(self).slots@.len() == old(self).slots@.len()
                &&& final(self).is_field(e) && final(self).field(e) == new_field
                &&& if old(self).is_form(fm.parent) {
                    &&& final(self).is_form(fm.parent)
                    &&& final(self).form(fm.parent) == reconciled_form(
                        old(self).form(fm.parent),
                        fm.status,
                        fm.input.value,
                        fm.optional,
                        e,
                    )
                    &&& forall|j: int|
                        0 <= j < old(self).slots@.len() && j != e.0 && j != fm.parent.0
                            ==> final(self).slots@[j] == old(self).slots@[j]
                } else {
                    forall|j: int|
                        0 <= j < old(self).slots@.len() && j != e.0 ==> final(self).slots@[j]
                            == old(self).slots@[j]
                }
            }),
    {
        let ghost w0 = *self;
        let s = self.take_slot(e.0);
        match s {
            Slot::Field(mut f) => {
                let parent = f.parent;
                let parent_is_form = parent.0 < self.slots.len() && (match &self.slots[parent.0] {
                    Slot::Form(_) => true,
                    _ => false,
                });
                if parent_is_form {
                    let ps = self.take_slot(parent.0);
                    match ps {
                        Slot::Form(mut form) => {
                            revalidate(&mut f, &mut form, e);
                            self.put_slot(parent.0, Slot::Form(form));
                        },
                        _ => unreached(),
                    }
                } else {
                    let mut scratch = Form::new();
                    revalidate(&mut f, &mut scratch, e);
                }
                self.put_slot(e.0, Slot::Field(f));
                proof {
                    assert(w0.is_form(parent) ==> parent.0 != e.0);
                    assert forall|k: int|
                        0 <= k < self.slots@.len() && (#[trigger] self.slots@[k]) is Field implies {
                        &&& (self.slots@[k]->Field_0@.active <==> self.focus == Some(
                            Entity(k as usize),
                        ))
                        &&& self.slots@[k]->Field_0@.wf()
                    } by {
                        assert(w0.slots@[k] is Field);
                    }
                    assert forall|k: int|
                        0 <= k < self.slots@.len() && (#[trigger] self.slots@[k])
                            is Form implies self.slots@[k]->Form_0@.wf() by {
                        assert(w0.slots@[k] is Form);
                    }
                    match self.focus {
                        Some(fe) => {
                            assert(w0.slots@[fe.0 as int] is Field);
                            assert(self.slots@[fe.0 as int] is Field);
                        },
                        None => (),
                    }
                }
            },
            _ => unreached(),
        }
    }

    /// Route one batch of key events to the focused field: its value and
    /// cursor are updated in arrival order — unless a control modifier is
    /// held —, the field is marked dirty if its value changed, and each
    /// Enter key yields a submit notification carrying the value as it
    /// stood. With no field focused the batch falls on the floor.
    pub fn route_keys(&mut self, keys: &Vec<Key>, control_held: bool) -> (submits: Vec<
        TextInputSubmit,
    >)
        requires
            old(self).wf(),
            match old(self).focus {
                Some(e) => old(self).field(e).input.value.len() + keys@.len() < usize::MAX,
                None => true,
            },
        ensures
            final(self).wf(),
            final(self).focus == old(self).focus,
            match old(self).focus {
                None => *final(self) == *old(self) && submits@.len() == 0,
                Some(e) => {
                    let fm = old(self).field(e);
                    let new_input = if control_held {
                        fm.input
                    } else {
                        keys_step(fm.input, keys@)
                    };
                    let subs = if control_held {
                        Seq::<Seq<char>>::empty()
                    } else {
                        keys_submissions(fm.input, keys@)
                    };
                    &&& final(self).slots@.len() == old(self).slots@.len()
                    &&& final(self).is_field(e)
                    &&& final(self).field(e) == (FieldModel {
                        input: new_input,
                        dirty: fm.dirty || new_input.value != fm.input.value,
                        ..fm
                    })
                    &&& forall|j: int|
                        0 <= j < old(self).slots@.len() && j != e.0 ==> final(self).slots@[j]
                            == old(self).slots@[j]
                    &&& submits@.len() == subs.len()
                    &&& forall|i: int|
                        0 <= i < subs.len() ==> (#[trigger] submits@[i]).entity == e
                            && submits@[i].value@ == subs[i]
                },
            },
    {
        let ghost w0 = *self;
        let mut submits: Vec<TextInputSubmit> = Vec::new();
        let focused = self.focus;
        match focused {
            None => submits,
            Some(e) => {
                let s = self.take_slot(e.0);
                match s {
                    Slot::Field(mut f) => {
                        let old_value = clone_chars(&f.input.value);
                        let raw = f.input.process_keys(keys, control_held);
                        let changed = !chars_eq(&f.input.value, &old_value);
                        f.dirty = f.dirty || changed;
                        self.put_slot(e.0, Slot::Field(f));
                        let mut i: usize = 0;
                        let ghost subs = if control_held {
                            Seq::<Seq<char>>::empty()
                        } else {
                            keys_submissions(w0.field(e).input, keys@)
                        };
                        proof {
                            assert(raw.deep_view() == subs);
                            assert(raw@.len() == subs.len());
                        }
                        let mut raw = raw;
                        while raw.len() > 0
                            invariant
                                submits@.len() + raw@.len() == subs.len(),
                                forall|k: int|
                                    0 <= k < submits@.len() ==> (#[trigger] submits@[k]).entity
                                        == e && submits@[k].value@ == subs[k],
                                forall|k: int|
                                    0 <= k < raw@.len() ==> (#[trigger] raw@[k])@ == subs[submits@.len()
                                        + k],
                            decreases raw@.len(),
                        {
                            let v = raw.remove(0);
                            submits.push(TextInputSubmit { entity: e, value: v });
                        }
                        proof {
                            assert forall|k: int|
                                0 <= k < self.slots@.len() && (#[trigger] self.slots@[k])
                                    is Field implies {
                                &&& (self.slots@[k]->Field_0@.active <==> self.focus == Some(
                                    Entity(k as usize),
                                ))
                                &&& self.slots@[k]->Field_0@.wf()
                            } by {
                                assert(w0.slots@[k] is Field);
                            }
                            assert forall|k: int|
                                0 <= k < self.slots@.len() && (#[trigger] self.slots@[k])
                                    is Form implies self.slots@[k]->Form_0@.wf() by {
                                assert(w0.slots@[k] is Form);
                            }
                            assert(self.slots@[e.0 as int] is Field);
                        }
                        submits
                    },
                    _ => unreached(),
                }
            },
        }
    }

    /// Deliver pasted text to the focused field: newlines are stripped, the
    /// rest inserted at the cursor, and the field marked dirty when
    /// anything was inserted. With no field focused the text is dropped.
    pub fn route_paste(&mut self, text: &Vec<char>)
        requires
            old(self).wf(),
            match old(self).focus {
                Some(e) => old(self).field(e).input.value.len() + text@.len() < usize::MAX,
                None => true,
            },
        ensures
            final(self).wf(),
            final(self).focus == old(self).focus,
            match old(self).focus {
                None => *final(self) == *old(self),
                Some(e) => {
                    let fm = old(self).field(e);
                    let inserted = strip_newlines(text@);
                    &&& final(self).slots@.len() == old(self).slots@.len()
                    &&& final(self).is_field(e)
                    &&& final(self).field(e).input.value == fm.input.value.take(fm.input.cursor)
                        + inserted + fm.input.value.skip(fm.input.cursor)
                    &&& final(self).field(e).input.cursor == fm.input.cursor + inserted.len()
                    &&& final(self).field(e).dirty == (fm.dirty || inserted.len() > 0)
                    &&& final(self).field(e).status == fm.status
                    &&& final(self).field(e).parent == fm.parent
                    &&& final(self).field(e).optional == fm.optional
                    &&& final(self).field(e).order == fm.order
                    &&& final(self).field(e).active == fm.active
                    &&& final(self).field(e).touched == fm.touched
                    &&& forall|j: int|
                        0 <= j < old(self).slots@.len() && j != e.0 ==> final(self).slots@[j]
                            == old(self).slots@[j]
                },
            },
    {
        let ghost w0 = *self;
        let focused = self.focus;
        match focused {
            None => (),
            Some(e) => {
                let s = self.take_slot(e.0);
                match s {
                    Slot::Field(mut f) => {
                        let inserted = f.input.paste(text);
                        if inserted > 0 {
                            f.dirty = true;
                        }
                        self.put_slot(e.0, Slot::Field(f));
                        proof {
                            assert forall|k: int|
                                0 <= k < self.slots@.len() && (#[trigger] self.slots@[k])
                                    is Field implies {
                                &&& (self.slots@[k]->Field_0@.active <==> self.focus == Some(
                                    Entity(k as usize),
                                ))
                                &&& self.slots@[k]->Field_0@.wf()
                            } by {
                                assert(w0.slots@[k] is Field);
                            }
                            assert forall|k: int|
                                0 <= k < self.slots@.len() && (#[trigger] self.slots@[k])
                                    is Form implies self.slots@[k]->Form_0@.wf() by {
                                assert(w0.slots@[k] is Form);
                            }
                            assert(self.slots@[e.0 as int] is Field);
                        }
                    },
                    _ => unreached(),
                }
            },
        }
    }

    /// The cursor-blink phase: every field's repeating timer fires once —
    /// toggling its glyph visibility, or showing it immediately where an
    /// edit or navigation marked the timer for reset.
    pub fn blink_phase(&mut self)
        requires
            old(self).wf(),
        ensures
            final(self).wf(),
            final(self).focus == old(self).focus,
            final(self).slots@.len() == old(self).slots@.len(),
            forall|i: int|
                0 <= i < old(self).slots@.len() && !((#[trigger] old(self).slots@[i]) is Field)
                    ==> final(self).slots@[i] == old(self).slots@[i],
            forall|i: int|
                0 <= i < old(self).slots@.len() && (#[trigger] old(self).slots@[i]) is Field ==> {
                    let fm = old(self).slots@[i]->Field_0@;
                    &&& final(self).slots@[i] is Field
                    &&& final(self).slots@[i]->Field_0@ == (FieldModel {
                        input: crate::text_input::TextInputModel {
                            cursor_visible: if fm.input.blink_reset {
                                true
                            } else {
                                !fm.input.cursor_visible
                            },
                            blink_reset: false,
                            ..fm.input
                        },
                        ..fm
                    })
                },
    {
        let ghost w0 = *self;
        let n = self.slots.len();
        let mut i: usize = 0;
        while i < n
            invariant
                n == w0.slots@.len(),
                i <= n,
                self.slots@.len() == n,
                self.focus == w0.focus,
                forall|j: int| i <= j < n ==> self.slots@[j] == w0.slots@[j],
                forall|j: int|
                    0 <= j < i && !((#[trigger] w0.slots@[j]) is Field) ==> self.slots@[j]
                        == w0.slots@[j],
                forall|j: int|
                    0 <= j < i && (#[trigger] w0.slots@[j]) is Field ==> {
                        let fm = w0.slots@[j]->Field_0@;
                        &&& self.slots@[j] is Field
                        &&& self.slots@[j]->Field_0@ == (FieldModel {
                            input: crate::text_input::TextInputModel {
                                cursor_visible: if fm.input.blink_reset {
                                    true
                                } else {
                                    !fm.input.cursor_visible
                                },
                                blink_reset: false,
                                ..fm.input
                            },
                            ..fm
                        })
                    },
            decreases n - i,
        {
            let s = self.take_slot(i);
            match s {
                Slot::Field(mut f) => {
                    f.input.blink_tick();
                    self.put_slot(i, Slot::Field(f));
                },
                other => {
                    self.put_slot(i, other);
                },
            }
            i = i + 1;
        }
        proof {
            assert forall|k: int|
                0 <= k < n && (#[trigger] self.slots@[k]) is Field implies {
                &&& (self.slots@[k]->Field_0@.active <==> self.focus == Some(Entity(k as usize)))
                &&& self.slots@[k]->Field_0@.wf()
            } by {
                assert(w0.slots@[k] is Field);
            }
            assert forall|k: int|
                0 <= k < n && (#[trigger] self.slots@[k]) is Form implies self.slots@[k]->Form_0@.wf() by {
                assert(w0.slots@[k] is Form);
            }
            match self.focus {
                Some(e) => {
                    assert(w0.slots@[e.0 as int] is Field);
                    assert(self.slots@[e.0 as int] is Field);
                },
                None => (),
            }
        }
    }

    /// Destroy a form and cascade to its children: every field and button
    /// it owns is destroyed with it, and the focus token is cleared if a
    /// destroyed field held it.
    pub fn despawn_form(&mut self, form: Entity)
        requires
            old(self).wf(),
            old(self).is_form(form),
        ensures
            final(self).wf(),
            final(self).slots@.len() == old(self).slots@.len(),
            !final(self).is_form(form),
            forall|i: int|
                0 <= i < old(self).slots@.len() && i != form.0 && !old(self).form(
                    form,
                ).fields.contains(Entity(i as usize)) && !old(self).form(form).buttons.contains(
                    Entity(i as usize),
                ) ==> final(self).slots@[i] == old(self).slots@[i],
            forall|i: int|
                0 <= i < old(self).slots@.len() && (i == form.0 || old(self).form(
                    form,
                ).fields.contains(Entity(i as usize)) || old(self).form(form).buttons.contains(
                    Entity(i as usize),
                )) ==> final(self).slots@[i] is Empty,
    {
        let ghost w0 = *self;
        let (children, buttons) = {
            let f = self.form_ref(form);
            (clone_entities(&f.fields), clone_entities(&f.buttons))
        };
        self.put_slot(form.0, Slot::Empty);
        self.despawn_list(&children);
        let ghost w1 = *self;
        self.despawn_list(&buttons);
        proof {
            assert forall|k: int|
                0 <= k < self.slots@.len() && (#[trigger] self.slots@[k]) is Field implies {
                &&& (self.slots@[k]->Field_0@.active <==> self.focus == Some(Entity(k as usize)))
                &&& self.slots@[k]->Field_0@.wf()
            } by {
                assert(w1.slots@[k] == self.slots@[k]);
                assert(w0.slots@[k] == self.slots@[k]);
                assert(w0.slots@[k] is Field);
                if self.slots@[k]->Field_0@.active {
                    assert(w0.focus == Some(Entity(k as usize)));
                    if children@.contains(Entity(k as usize)) || buttons@.contains(
                        Entity(k as usize),
                    ) {
                        assert(self.slots@[k] is Empty);
                    }
                }
            }
            assert forall|k: int|
                0 <= k < self.slots@.len() && (#[trigger] self.slots@[k]) is Form implies self.slots@[k]->Form_0@.wf() by {
                assert(w0.slots@[k] == self.slots@[k]);
                assert(w0.slots@[k] is Form);
            }
            match self.focus {
                Some(e) => {
                    assert(w1.focus == Some(e));
                    assert(w0.focus == Some(e));
                    assert(w0.slots@[e.0 as int] is Field);
                    assert(!children@.contains(e) && !buttons@.contains(e));
                    assert(self.slots@[e.0 as int] == w0.slots@[e.0 as int]);
                },
                None => (),
            }
        }
    }

    /// Destroy every entity in a list, clearing the focus token if one of
    /// them held it.
    fn despawn_list(&mut self, list: &Vec<Entity>)
        ensures
            final(self).slots@.len() == old(self).slots@.len(),
            forall|j: int|
                0 <= j < old(self).slots@.len() && !list@.contains(Entity(j as usize))
                    ==> final(self).slots@[j] == old(self).slots@[j],
            forall|j: int|
                0 <= j < old(self).slots@.len() && list@.contains(Entity(j as usize))
                    ==> final(self).slots@[j] is Empty,
            final(self).focus == (match old(self).focus {
                Some(e) => if list@.contains(e) {
                    None::<Entity>
                } else {
                    Some(e)
                },
                None => None::<Entity>,
            }),
    {
        let ghost w0 = *self;
        let mut i: usize = 0;
        while i < list.len()
            invariant
                i <= list@.len(),
                self.slots@.len() == w0.slots@.len(),
                forall|j: int|
                    0 <= j < w0.slots@.len() && !list@.take(i as int).contains(Entity(j as usize))
                        ==> self.slots@[j] == w0.slots@[j],
                forall|j: int|
                    0 <= j < w0.slots@.len() && list@.take(i as int).contains(Entity(j as usize))
                        ==> self.slots@[j] is Empty,
                self.focus == (match w0.focus {
                    Some(e) => if list@.take(i as int).contains(e) {
                        None::<Entity>
                    } else {
                        Some(e)
                    },
                    None => None::<Entity>,
                }),
            decreases list@.len() - i,
        {
            let c = list[i];
            if c.index() < self.slots.len() {
                self.put_slot(c.index(), Slot::Empty);
            }
            let clear = match self.focus {
                Some(e) => e.0 == c.index(),
                None => false,
            };
            if clear {
                self.focus = None;
            }
            proof {
                assert(list@.take(i as int + 1) =~= list@.take(i as int).push(c));
                assert forall|x: Entity|
                    #[trigger] list@.take(i as int + 1).contains(x) <==> x == c || list@.take(
                        i as int,
                    ).contains(x) by {
                    vstd::seq_lib::lemma_seq_contains_after_push(list@.take(i as int), c, x);
                }
                assert forall|j: int|
                    0 <= j < w0.slots@.len() && list@.take(i as int + 1).contains(
                        Entity(j as usize),
                    ) implies self.slots@[j] is Empty by {
                    if list@.take(i as int).contains(Entity(j as usize)) {
                    } else {
                        assert(Entity(j as usize) == c);
                    }
                }
            }
            i = i + 1;
        }
        proof {
            assert(list@.take(list@.len() as int) =~= list@);
        }
    }
}

} // verus!
