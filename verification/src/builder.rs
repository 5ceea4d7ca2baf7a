//! Declarative form construction and typed-action plumbing.
//!
//! A form is built from a declarative field list: one field entity per
//! declaration — carrying value, cursor, settings, order, optionality and
//! active flag — parented under one form entity, plus one button entity per
//! declared action referencing the form and a role. Building also yields
//! the mapping from logical field name to entity handle through which the
//! submit path reads field values back.

use vstd::prelude::*;

use crate::button::{Button, ButtonModel, ButtonRole, FormButton, FormButtonBundle,
    FormButtonModel, FormInteraction, RoleModel};
use crate::entity::Entity;
use crate::form::{Form, FormActionId, FormModel, FormValidity};
use crate::form_element::{Field, FieldModel, FieldStatus};
use crate::text_input::{TextInput, TextInputModel};
use crate::world::{Slot, World};

verus! {

/// One entry of the mapping from logical field name to entity handle.
#[derive(Debug)]
pub struct FieldBinding {
    /// The logical field name.
    pub name: String,
    /// The field entity's handle.
    pub entity: Entity,
    /// Whether the declared field is optional.
    pub optional: bool,
}

/// The mapping a built form leaves behind: its handle and one binding per
/// declared field, in declaration order. The submit path reads field
/// values only through this mapping.
#[derive(Debug)]
pub struct FormFields {
    /// The form's handle.
    pub form: Entity,
    /// One binding per declared field, in declaration order.
    pub bindings: Vec<FieldBinding>,
}

/// One gathered field value: the logical name and the field's value — or
/// nothing, for an optional field whose entity is gone.
#[derive(Debug)]
pub struct FieldValue {
    /// The logical field name.
    pub name: String,
    /// The field's value at gathering time.
    pub value: Option<Vec<char>>,
}

/// Why form data could not be gathered: the form is not currently asserted
/// valid, or — an invariant violation in the wiring — a required field's
/// entity is missing from the world.
#[derive(Clone, Copy, PartialEq, Eq, Structural, Debug)]
pub enum FormDataError {
    /// The form is not currently asserted valid.
    FormNotValid,
    /// A non-optional binding names no live field: the wiring's invariant
    /// is violated.
    MissingField,
}

/// Whether every non-optional binding names a live field.
pub open spec fn bindings_resolve(w: World, bindings: Seq<FieldBinding>) -> bool {
    forall|i: int|
        0 <= i < bindings.len() && !(#[trigger] bindings[i]).optional ==> w.is_field(
            bindings[i].entity,
        )
}

/// Whether gathered data reads the bindings back faithfully: one value per
/// binding in order, under its logical name, holding the named field's
/// value — or nothing for an optional field whose entity is gone.
pub open spec fn gathered_data(w: World, bindings: Seq<FieldBinding>, data: Seq<FieldValue>) -> bool {
    &&& data.len() == bindings.len()
    &&& forall|i: int|
        0 <= i < data.len() ==> (#[trigger] data[i]).name@ == bindings[i].name@ && (
        if w.is_field(bindings[i].entity) {
            data[i].value matches Some(v) && v@ == w.field(bindings[i].entity).input.value
        } else {
            data[i].value is None
        })
}

impl World {
    /// Gather a form's field data through its name-to-handle mapping: one
    /// value per binding, in declaration order. Succeeds exactly when the
    /// form is live and asserted valid and every non-optional binding
    /// resolves; an optional binding whose entity is gone yields no value.
    pub fn gather_form_data(&self, ff: &FormFields) -> (r: Result<Vec<FieldValue>, FormDataError>)
        ensures
            match r {
                Ok(data) => {
                    &&& self.is_form(ff.form)
                    &&& self.form(ff.form).validity is Valid
                    &&& bindings_resolve(*self, ff.bindings@)
                    &&& gathered_data(*self, ff.bindings@, data@)
                },
                Err(FormDataError::FormNotValid) => !(self.is_form(ff.form) && self.form(
                    ff.form,
                ).validity is Valid),
                Err(FormDataError::MissingField) => {
                    &&& self.is_form(ff.form)
                    &&& self.form(ff.form).validity is Valid
                    &&& !bindings_resolve(*self, ff.bindings@)
                },
            },
    {
        let form_valid = ff.form.0 < self.slots.len() && (match &self.slots[ff.form.0] {
            crate::world::Slot::Form(f) => match f.validity {
                crate::form::FormValidity::Valid => true,
                _ => false,
            },
            _ => false,
        });
        if !form_valid {
            return Err(FormDataError::FormNotValid);
        }
        let mut data: Vec<FieldValue> = Vec::new();
        let mut i: usize = 0;
        while i < ff.bindings.len()
            invariant
                i <= ff.bindings@.len(),
                data@.len() == i,
                self.is_form(ff.form),
                self.form(ff.form).validity is Valid,
                forall|k: int|
                    0 <= k < i && !(#[trigger] ff.bindings@[k]).optional ==> self.is_field(
                        ff.bindings@[k].entity,
                    ),
                forall|k: int|
                    0 <= k < i ==> (#[trigger] data@[k]).name@ == ff.bindings@[k].name@ && (
                    if self.is_field(ff.bindings@[k].entity) {
                        data@[k].value matches Some(v) && v@ == self.field(
                            ff.bindings@[k].entity,
                        ).input.value
                    } else {
                        data@[k].value is None
                    }),
            decreases ff.bindings@.len() - i,
        {
            let b = &ff.bindings[i];
            let live = b.entity.0 < self.slots.len() && (match &self.slots[b.entity.0] {
                crate::world::Slot::Field(_) => true,
                _ => false,
            });
            if live {
                let f = self.field_ref(b.entity);
                data.push(
                    FieldValue {
                        name: crate::form::clone_string(&b.name),
                        value: Some(crate::text_input::clone_chars(&f.input.value)),
                    },
                );
            } else if b.optional {
                data.push(FieldValue { name: crate::form::clone_string(&b.name), value: None });
            } else {
                proof {
                    assert(!ff.bindings@[i as int].optional && !self.is_field(
                        ff.bindings@[i as int].entity,
                    ));
                }
                return Err(FormDataError::MissingField);
            }
            i = i + 1;
        }
        Ok(data)
    }
}

/// One declared typed action: its button text, the role its button plays,
/// and whether invoking it needs the form's data.
#[derive(Debug)]
pub struct ActionVariantDef {
    /// Text displayed on the action's button.
    pub text: String,
    /// The role the action's button plays.
    pub role: ButtonRole,
    /// Whether invoking the action needs the form's data.
    pub needs_data: bool,
}

/// Why a numeric action id could not be turned into an invocation.
#[derive(Clone, Copy, PartialEq, Eq, Structural, Debug)]
pub enum ActionError {
    /// The id names no declared action.
    UnknownId,
    /// The action needs the form's data and none was supplied.
    MissingData,
}

/// A resolved typed-action invocation: which declared action fired and the
/// form data handed to it, if any.
#[derive(Debug)]
pub struct ActionInvocation {
    /// Index of the declared action.
    pub id: usize,
    /// The form data handed to the action.
    pub data: Option<Vec<FieldValue>>,
}

/// Turn a pressed action button's numeric id back into an invocation of
/// the declared action: fails exactly on an id no action declares, or on a
/// data-carrying action invoked without form data.
pub fn action_from_id(
    defs: &Vec<ActionVariantDef>,
    id: usize,
    data: Option<Vec<FieldValue>>,
) -> (r: Result<ActionInvocation, ActionError>)
    ensures
        match r {
            Ok(inv) => {
                &&& id < defs@.len()
                &&& (defs@[id as int].needs_data ==> data is Some)
                &&& inv.id == id
                &&& inv.data == data
            },
            Err(ActionError::UnknownId) => id >= defs@.len(),
            Err(ActionError::MissingData) => id < defs@.len() && defs@[id as int].needs_data
                && data is None,
        },
{
    if id >= defs.len() {
        return Err(ActionError::UnknownId);
    }
    if defs[id].needs_data && (match &data {
        Some(_) => false,
        None => true,
    }) {
        return Err(ActionError::MissingData);
    }
    Ok(ActionInvocation { id, data })
}

/// The button bundles a typed action list declares: one per action, in
/// declaration order, each owned by the form, playing the declared role,
/// showing the declared text and carrying its index as action id.
pub fn action_button_bundles(defs: &Vec<ActionVariantDef>, form: Entity) -> (r: Vec<
    FormButtonBundle,
>)
    ensures
        r@.len() == defs@.len(),
        forall|i: int|
            0 <= i < defs@.len() ==> {
                &&& (#[trigger] r@[i]).form_button@.text == defs@[i].text@
                &&& r@[i].form_button@.form == Some(form)
                &&& r@[i].button_role@ == defs@[i].role@
                &&& r@[i].action_id == Some(FormActionId(i as usize))
            },
{
    let mut r: Vec<FormButtonBundle> = Vec::new();
    let mut i: usize = 0;
    while i < defs.len()
        invariant
            i <= defs@.len(),
            r@.len() == i,
            forall|k: int|
                0 <= k < i ==> {
                    &&& (#[trigger] r@[k]).form_button@.text == defs@[k].text@
                    &&& r@[k].form_button@.form == Some(form)
                    &&& r@[k].button_role@ == defs@[k].role@
                    &&& r@[k].action_id == Some(FormActionId(k as usize))
                },
        decreases defs@.len() - i,
    {
        let d = &defs[i];
        let b = FormButtonBundle::new(crate::form::clone_string(&d.text)).with_role(
            d.role.duplicate(),
        ).with_form(form).with_action_id(FormActionId(i));
        r.push(b);
        i = i + 1;
    }
    r
}

/// One declared input field: its logical name, its text-box settings, and
/// its form-element flags.
#[derive(Debug)]
pub struct FieldDef {
    /// The logical field name the submit path reads it back by.
    pub name: String,
    /// Placeholder text shown while the value is empty.
    pub placeholder: String,
    /// Mask character replacing every rendered character, if any.
    pub mask_character: Option<char>,
    /// The value the field starts with.
    pub default_value: Vec<char>,
    /// Whether an empty value is acceptable.
    pub optional: bool,
    /// Whether this field starts as the routed-input field; at most the
    /// first field declared active becomes it.
    pub active: bool,
}

/// A whole form, declaratively: its fields in order, optional submit and
/// cancel buttons, and its typed actions.
#[derive(Debug)]
pub struct FormDef {
    /// The input fields, in declaration order; a field's position is its
    /// tab order.
    pub fields: Vec<FieldDef>,
    /// Text for a submit button, if one is wanted.
    pub submit_text: Option<String>,
    /// Text for a cancel button, if one is wanted.
    pub cancel_text: Option<String>,
    /// The typed actions, each becoming one button.
    pub actions: Vec<ActionVariantDef>,
}

/// Whether a field entity carries exactly what its declaration asked for:
/// the default value with the cursor at its end, the mask, retention on
/// submit, its declaration position as tab order, and the active and
/// touched flags exactly when it holds focus.
pub open spec fn field_built(w: World, e: Entity, parent: Entity, d: FieldDef, i: int) -> bool {
    &&& w.is_field(e)
    &&& w.field(e) == (FieldModel {
        input: TextInputModel {
            value: d.default_value@,
            cursor: d.default_value@.len() as int,
            mask_character: d.mask_character,
            retain_on_submit: true,
            cursor_visible: true,
            blink_reset: false,
        },
        parent,
        optional: d.optional,
        order: Some(i as usize),
        active: w.focus == Some(e),
        touched: w.focus == Some(e),
        dirty: false,
        status: FieldStatus::Unchecked,
        placeholder: d.placeholder@,
    })
}

/// Whether a button entity carries exactly the given description: owned by
/// the form, playing the role, showing the text, idle, with the given
/// action id.
pub open spec fn button_built(
    w: World,
    e: Entity,
    form: Entity,
    text: Seq<char>,
    role: RoleModel,
    id: Option<FormActionId>,
) -> bool {
    &&& w.is_button(e)
    &&& w.button(e) == (ButtonModel {
        button: FormButtonModel { text, form: Some(form) },
        role,
        interaction: FormInteraction::Idle,
        action_id: id,
    })
}

/// Whether position `k` holds the first field declared active.
pub open spec fn is_first_active(fields: Seq<FieldDef>, k: int) -> bool {
    &&& 0 <= k < fields.len()
    &&& fields[k].active
    &&& forall|j: int| 0 <= j < k ==> !(#[trigger] fields[j]).active
}

impl World {
    /// Spawn one button entity from its bundle.
    pub fn spawn_button(&mut self, b: FormButtonBundle) -> (e: Entity)
        requires
            old(self).wf(),
        ensures
            final(self).wf(),
            e.0 == old(self).slots@.len(),
            final(self).slots@.len() == old(self).slots@.len() + 1,
            forall|j: int|
                0 <= j < old(self).slots@.len() ==> final(self).slots@[j] == old(self).slots@[j],
            final(self).focus == old(self).focus,
            final(self).is_button(e),
            final(self).button(e) == (ButtonModel {
                button: b.form_button@,
                role: b.button_role@,
                interaction: FormInteraction::Idle,
                action_id: b.action_id,
            }),
    {
        self.spawn(
            Slot::Button(
                Button {
                    button: b.form_button,
                    role: b.button_role,
                    interaction: FormInteraction::Idle,
                    action_id: b.action_id,
                },
            ),
        )
    }

    /// Build one form from its declaration: one field entity per declared
    /// field — value, cursor, settings, order, optionality and active flag
    /// as declared — parented under one form entity asserted valid; one
    /// button entity per declared action referencing the form and its role;
    /// and the mapping from logical field name to field handle the submit
    /// path reads through. The first field declared active receives the
    /// focus token; fields that were in the world before lose it.
    #[verifier::rlimit(60)]
    pub fn build_form(&mut self, def: FormDef) -> (out: (Entity, FormFields))
        requires
            old(self).wf(),
        ensures
            final(self).wf(),
            ({
                let form_e = out.0;
                let nf = def.fields@.len() as int;
                let n_cancel: int = if def.cancel_text is Some {
                    1
                } else {
                    0
                };
                let n_submit: int = if def.submit_text is Some {
                    1
                } else {
                    0
                };
                &&& final(self).is_form(form_e)
                &&& form_e.0 == old(self).slots@.len()
                &&& final(self).form(form_e).validity is Valid
                &&& final(self).form(form_e).errors.len() == 0
                &&& final(self).form(form_e).fields.len() == nf
                &&& forall|i: int|
                    0 <= i < nf ==> field_built(
                        *final(self),
                        #[trigger] final(self).form(form_e).fields[i],
                        form_e,
                        def.fields@[i],
                        i,
                    )
                &&& final(self).form(form_e).buttons.len() == n_cancel + n_submit
                    + def.actions@.len()
                &&& (def.cancel_text matches Some(t) ==> button_built(
                    *final(self),
                    final(self).form(form_e).buttons[0],
                    form_e,
                    t@,
                    RoleModel::Cancel,
                    None,
                ))
                &&& (def.submit_text matches Some(t) ==> button_built(
                    *final(self),
                    final(self).form(form_e).buttons[n_cancel],
                    form_e,
                    t@,
                    RoleModel::Submit,
                    None,
                ))
                &&& forall|i: int|
                    0 <= i < def.actions@.len() ==> button_built(
                        *final(self),
                        #[trigger] final(self).form(form_e).buttons[n_cancel + n_submit + i],
                        form_e,
                        def.actions@[i].text@,
                        def.actions@[i].role@,
                        Some(FormActionId(i as usize)),
                    )
                &&& out.1.form == form_e
                &&& out.1.bindings@.len() == nf
                &&& forall|i: int|
                    0 <= i < nf ==> {
                        &&& (#[trigger] out.1.bindings@[i]).name@ == def.fields@[i].name@
                        &&& out.1.bindings@[i].entity == final(self).form(form_e).fields[i]
                        &&& out.1.bindings@[i].optional == def.fields@[i].optional
                    }
                &&& forall|k: int|
                    is_first_active(def.fields@, k) ==> final(self).focus == Some(
                        final(self).form(form_e).fields[k],
                    )
                &&& (forall|j: int| 0 <= j < nf ==> !(#[trigger] def.fields@[j]).active)
                    ==> final(self).focus == old(self).focus
                &&& forall|j: int|
                    0 <= j < old(self).slots@.len() && !((#[trigger] old(self).slots@[j]) is Field)
                        ==> final(self).slots@[j] == old(self).slots@[j]
                &&& (forall|j: int| 0 <= j < nf ==> !(#[trigger] def.fields@[j]).active)
                    ==> (forall|j: int|
                    0 <= j < old(self).slots@.len() ==> final(self).slots@[j] == old(
                        self,
                    ).slots@[j])
                &&& (exists|k: int| is_first_active(def.fields@, k)) ==> (forall|j: int|
                    0 <= j < old(self).slots@.len() && (#[trigger] old(self).slots@[j]) is Field
                        ==> final(self).slots@[j] is Field && final(self).slots@[j]->Field_0@
                        == (FieldModel {
                        active: false,
                        ..old(self).slots@[j]->Field_0@
                    }))
            }),
    {
        let ghost w0 = *self;
        let ghost gdef = def;
        let FormDef { mut fields, submit_text, cancel_text, actions } = def;
        let ghost fdefs = fields@;
        let ghost adefs = actions@;
        let mut form = Form::new();
        form.mark_valid();
        let form_e = self.spawn(Slot::Form(form));
        proof {
            assert(self.form(form_e).errors =~= Seq::<crate::form::FormValidationError>::empty());
            assert(self.form(form_e).fields =~= Seq::<Entity>::empty());
            assert(self.form(form_e).buttons =~= Seq::<Entity>::empty());
        }
        let mut field_entities: Vec<Entity> = Vec::new();
        let mut bindings: Vec<FieldBinding> = Vec::new();
        let mut active_target: Option<Entity> = None;
        let mut i: usize = 0;
        while fields.len() > 0
            invariant
                self.wf(),
                i + fields@.len() == fdefs.len(),
                fields@ == fdefs.skip(i as int),
                form_e.0 == w0.slots@.len(),
                self.slots@.len() == w0.slots@.len() + 1 + i,
                self.is_form(form_e),
                self.form(form_e) == (FormModel {
                    errors: Seq::empty(),
                    validity: FormValidity::Valid,
                    fields: Seq::empty(),
                    buttons: Seq::empty(),
                }),
                forall|j: int| 0 <= j < w0.slots@.len() ==> self.slots@[j] == w0.slots@[j],
                field_entities@.len() == i,
                bindings@.len() == i,
                forall|k: int|
                    0 <= k < i ==> (#[trigger] field_entities@[k]).0 == w0.slots@.len() + 1 + k,
                forall|k: int|
                    0 <= k < i ==> {
                        let e = #[trigger] field_entities@[k];
                        &&& self.is_field(e)
                        &&& self.field(e) == (FieldModel {
                            input: TextInputModel {
                                value: fdefs[k].default_value@,
                                cursor: fdefs[k].default_value@.len() as int,
                                mask_character: fdefs[k].mask_character,
                                retain_on_submit: true,
                                cursor_visible: true,
                                blink_reset: false,
                            },
                            parent: form_e,
                            optional: fdefs[k].optional,
                            order: Some(k as usize),
                            active: false,
                            touched: false,
                            dirty: false,
                            status: FieldStatus::Unchecked,
                            placeholder: fdefs[k].placeholder@,
                        })
                    },
                forall|k: int|
                    0 <= k < i ==> {
                        &&& (#[trigger] bindings@[k]).name@ == fdefs[k].name@
                        &&& bindings@[k].entity == field_entities@[k]
                        &&& bindings@[k].optional == fdefs[k].optional
                    },
                self.focus == w0.focus,
                match active_target {
                    Some(ae) => exists|k: int|
                        is_first_active(fdefs, k) && k < i && ae == field_entities@[k],
                    None => forall|j: int| 0 <= j < i ==> !(#[trigger] fdefs[j]).active,
                },
            decreases fields@.len(),
        {
            let d = fields.remove(0);
            proof {
                assert(fdefs.skip(i as int)[0] == d);
                assert(fields@ =~= fdefs.skip(i as int + 1));
                assert(fdefs[i as int] == d);
            }
            let value_len = d.default_value.len();
            let input = TextInput {
                value: d.default_value,
                cursor: value_len,
                mask_character: d.mask_character,
                retain_on_submit: true,
                cursor_visible: true,
                blink_reset: false,
            };
            let field = Field {
                input,
                parent: form_e,
                optional: d.optional,
                order: Some(i),
                active: false,
                touched: false,
                dirty: false,
                status: FieldStatus::Unchecked,
                placeholder: d.placeholder,
            };
            let e = self.spawn(Slot::Field(field));
            if d.active {
                match active_target {
                    None => {
                        proof {
                            assert(is_first_active(fdefs, i as int));
                        }
                        active_target = Some(e);
                    },
                    Some(_) => (),
                }
            }
            field_entities.push(e);
            bindings.push(FieldBinding { name: d.name, entity: e, optional: d.optional });
            i = i + 1;
        }
        proof {
            assert(fdefs.skip(fdefs.len() as int) =~= Seq::<FieldDef>::empty());
        }
        let mut button_entities: Vec<Entity> = Vec::new();
        match cancel_text {
            Some(text) => {
                let b = FormButtonBundle::new(text).with_role(ButtonRole::Cancel).with_form(
                    form_e,
                );
                let e = self.spawn_button(b);
                button_entities.push(e);
            },
            None => (),
        }
        match submit_text {
            Some(text) => {
                let b = FormButtonBundle::new(text).with_role(ButtonRole::Submit).with_form(
                    form_e,
                );
                let e = self.spawn_button(b);
                button_entities.push(e);
            },
            None => (),
        }
        let mut bundles = action_button_bundles(&actions, form_e);
        let ghost n_head: int = button_entities@.len() as int;
        let ghost n_cancel: int = if gdef.cancel_text is Some { 1 } else { 0 };
        let ghost n_submit: int = if gdef.submit_text is Some { 1 } else { 0 };
        let ghost w1 = *self;
        let ghost head_entities = button_entities@;
        proof {
            vstd::std_specs::vec::axiom_spec_len(&actions);
            assert(n_head == n_cancel + n_submit);
            assert(w1.is_form(form_e));
            if gdef.cancel_text is Some {
                assert(button_built(
                    w1,
                    button_entities@[0],
                    form_e,
                    gdef.cancel_text->0@,
                    RoleModel::Cancel,
                    None,
                ));
            }
            if gdef.submit_text is Some {
                assert(button_built(
                    w1,
                    button_entities@[n_cancel],
                    form_e,
                    gdef.submit_text->0@,
                    RoleModel::Submit,
                    None,
                ));
            }
        }
        let mut a: usize = 0;
        while bundles.len() > 0
            invariant
                self.wf(),
                0 <= n_head,
                adefs.len() <= usize::MAX,
                a + bundles@.len() == adefs.len(),
                button_entities@.len() == n_head + a,
                self.slots@.len() == w1.slots@.len() + a,
                forall|j: int| 0 <= j < w1.slots@.len() ==> self.slots@[j] == w1.slots@[j],
                self.focus == w1.focus,
                forall|k: int|
                    0 <= k < bundles@.len() ==> {
                        &&& (#[trigger] bundles@[k]).form_button@.text == adefs[a + k].text@
                        &&& bundles@[k].form_button@.form == Some(form_e)
                        &&& bundles@[k].button_role@ == adefs[a + k].role@
                        &&& bundles@[k].action_id == Some(FormActionId((a + k) as usize))
                    },
                forall|k: int|
                    n_head <= k < n_head + a ==> button_built(
                        *self,
                        #[trigger] button_entities@[k],
                        form_e,
                        adefs[k - n_head].text@,
                        adefs[k - n_head].role@,
                        Some(FormActionId((k - n_head) as usize)),
                    ),
                forall|k: int|
                    0 <= k < n_head ==> #[trigger] button_entities@[k] == head_entities[k],
                forall|k: int|
                    0 <= k < n_head ==> (#[trigger] button_entities@[k]).0 < w1.slots@.len(),
                forall|k: int|
                    0 <= k < button_entities@.len() ==> (#[trigger] button_entities@[k]).0
                        < self.slots@.len(),
            decreases bundles@.len(),
        {
            let ghost pre = *self;
            let ghost bprev = bundles@;
            let b = bundles.remove(0);
            proof {
                assert(b == bprev[0]);
                assert(forall|k: int| 0 <= k < bundles@.len() ==> #[trigger] bundles@[k] == bprev[
                k + 1]);
            }
            let e = self.spawn_button(b);
            let ghost be_prev = button_entities@;
            button_entities.push(e);
            proof {
                assert(button_entities@ == be_prev.push(e));
                assert(forall|k: int|
                    0 <= k < be_prev.len() ==> #[trigger] be_prev.push(e)[k] == be_prev[k]);
                assert(forall|k: int|
                    0 <= k < be_prev.len() ==> #[trigger] button_entities@[k] == be_prev[k]);
                assert forall|k: int|
                    n_head <= k < n_head + a + 1 implies button_built(
                    *self,
                    #[trigger] button_entities@[k],
                    form_e,
                    adefs[k - n_head].text@,
                    adefs[k - n_head].role@,
                    Some(FormActionId((k - n_head) as usize)),
                ) by {
                    if k < n_head + a {
                        assert(button_entities@[k] == be_prev[k]);
                        assert(be_prev[k].0 < pre.slots@.len());
                        assert(self.slots@[be_prev[k].0 as int] == pre.slots@[be_prev[k].0 as int]);
                        assert(button_built(
                            pre,
                            be_prev[k],
                            form_e,
                            adefs[k - n_head].text@,
                            adefs[k - n_head].role@,
                            Some(FormActionId((k - n_head) as usize)),
                        ));
                    } else {
                        assert(button_entities@[k] == e);
                    }
                }
            }
            a = a + 1;
        }
        let ghost w_b = *self;
        let children = crate::world::clone_entities(&field_entities);
        let buttons_list = crate::world::clone_entities(&button_entities);
        let s = self.take_slot(form_e.0);
        match s {
            Slot::Form(mut f) => {
                f.fields = children;
                f.buttons = buttons_list;
                self.put_slot(form_e.0, Slot::Form(f));
            },
            _ => vstd::pervasive::unreached(),
        }
        proof {
            assert forall|k: int|
                0 <= k < self.slots@.len() && (#[trigger] self.slots@[k]) is Field implies {
                &&& (self.slots@[k]->Field_0@.active <==> self.focus == Some(Entity(k as usize)))
                &&& self.slots@[k]->Field_0@.wf()
            } by {
                assert(w_b.slots@[k] is Field);
            }
            assert forall|k: int|
                0 <= k < self.slots@.len() && (#[trigger] self.slots@[k]) is Form implies self.slots@[k]->Form_0@.wf() by {
                if k != form_e.0 {
                    assert(w_b.slots@[k] is Form);
                }
            }
            match self.focus {
                Some(fe) => {
                    assert(w_b.slots@[fe.0 as int] is Field);
                    assert(self.slots@[fe.0 as int] is Field);
                },
                None => (),
            }
            assert(self.wf());
        }
        let ghost w2 = *self;
        match active_target {
            Some(ae) => {
                self.set_focus(Some(ae));
            },
            None => (),
        }
        proof {
            let nf = fdefs.len() as int;
            assert(gdef.fields@ == fdefs);
            assert(gdef.actions@ == adefs);
            assert(w2.form(form_e).fields == field_entities@);
            assert(w2.form(form_e).buttons == button_entities@);
            // the form slot survives the focus transfer untouched
            assert(self.is_form(form_e) && self.form(form_e) == w2.form(form_e));
            // whether some field was declared active, and focus landed on it
            match active_target {
                Some(ae) => {
                    let k0 = choose|k: int|
                        is_first_active(fdefs, k) && k < nf && ae == field_entities@[k];
                    assert(is_first_active(fdefs, k0) && ae == field_entities@[k0]);
                    assert(w2.is_field(ae));
                    assert(self.focus == Some(ae));
                    assert forall|k: int| is_first_active(fdefs, k) implies k == k0 by {
                        if k < k0 {
                            assert(fdefs[k].active);
                        }
                        if k > k0 {
                            assert(fdefs[k0].active);
                        }
                    }
                },
                None => {
                    assert(self.focus == w2.focus && w2.focus == w0.focus);
                    assert forall|k: int| !is_first_active(fdefs, k) by {
                        if is_first_active(fdefs, k) {
                            assert(fdefs[k].active);
                        }
                    }
                },
            }
            // every declared field entity carries what its declaration asked for
            assert forall|k: int| 0 <= k < nf implies field_built(
                *self,
                #[trigger] field_entities@[k],
                form_e,
                fdefs[k],
                k,
            ) by {
                let e = field_entities@[k];
                assert(w1.is_field(e));
                assert(w_b.slots@[e.0 as int] == w1.slots@[e.0 as int]);
                assert(e.0 != form_e.0);
                assert(w2.slots@[e.0 as int] == w_b.slots@[e.0 as int]);
                assert(w2.field(e) == w1.field(e));
                match active_target {
                    Some(ae) => {
                        assert(self.slots@[e.0 as int] is Field);
                        assert(self.field(e) == (FieldModel {
                            active: self.focus == Some(Entity(e.0 as usize)),
                            touched: w2.field(e).touched || self.focus == Some(
                                Entity(e.0 as usize),
                            ),
                            ..w2.field(e)
                        }));
                        assert(Entity(e.0 as usize) == e);
                    },
                    None => {
                        assert(*self == w2);
                        assert(w0.focus matches Some(x) ==> x.0 < w0.slots@.len());
                        assert(self.focus != Some(e));
                    },
                }
            }
            // every button slot survives the install and the focus transfer
            assert forall|k: int|
                0 <= k < button_entities@.len() implies w_b.is_button(
                #[trigger] button_entities@[k],
            ) && self.slots@[button_entities@[k].0 as int] == w_b.slots@[button_entities@[k].0 as int] by {
                let e = button_entities@[k];
                if k < n_head {
                    assert(e == head_entities[k]);
                    assert(w1.is_button(e));
                    assert(w_b.slots@[e.0 as int] == w1.slots@[e.0 as int]);
                } else {
                    assert(button_built(
                        w_b,
                        e,
                        form_e,
                        adefs[k - n_head].text@,
                        adefs[k - n_head].role@,
                        Some(FormActionId((k - n_head) as usize)),
                    ));
                }
                assert(e.0 != form_e.0);
                assert(w2.slots@[e.0 as int] == w_b.slots@[e.0 as int]);
                assert(!(w2.slots@[e.0 as int] is Field));
                assert(self.slots@[e.0 as int] == w2.slots@[e.0 as int]);
            }
            if gdef.cancel_text is Some {
                assert(button_entities@[0] == head_entities[0]);
                assert(w1.is_button(head_entities[0]));
                assert(w_b.slots@[button_entities@[0].0 as int] == w1.slots@[button_entities@[0].0
                as int]);
                assert(button_built(
                    *self,
                    button_entities@[0],
                    form_e,
                    gdef.cancel_text->0@,
                    RoleModel::Cancel,
                    None,
                ));
            }
            if gdef.submit_text is Some {
                assert(button_entities@[n_cancel] == head_entities[n_cancel]);
                assert(w1.is_button(head_entities[n_cancel]));
                assert(w_b.slots@[button_entities@[n_cancel].0 as int] == w1.slots@[
                button_entities@[n_cancel].0 as int]);
                assert(button_built(
                    *self,
                    button_entities@[n_cancel],
                    form_e,
                    gdef.submit_text->0@,
                    RoleModel::Submit,
                    None,
                ));
            }
            assert forall|k: int| 0 <= k < adefs.len() implies button_built(
                *self,
                #[trigger] button_entities@[n_cancel + n_submit + k],
                form_e,
                adefs[k].text@,
                adefs[k].role@,
                Some(FormActionId(k as usize)),
            ) by {
                let e = button_entities@[n_head + k];
                assert(button_built(
                    w_b,
                    e,
                    form_e,
                    adefs[k].text@,
                    adefs[k].role@,
                    Some(FormActionId(k as usize)),
                ));
                assert(self.slots@[e.0 as int] == w_b.slots@[e.0 as int]);
            }
            // slots that existed before are untouched, except that old
            // fields lose focus when a declared field gained it
            assert forall|j: int|
                0 <= j < w0.slots@.len() && !((#[trigger] w0.slots@[j]) is Field) implies self.slots@[j]
                == w0.slots@[j] by {
                assert(w2.slots@[j] == w0.slots@[j]);
            }
            match active_target {
                Some(ae) => {
                    assert forall|j: int|
                        0 <= j < w0.slots@.len() && (#[trigger] w0.slots@[j])
                            is Field implies self.slots@[j] is Field && self.slots@[j]->Field_0@
                        == (FieldModel { active: false, ..w0.slots@[j]->Field_0@ }) by {
                        assert(w2.slots@[j] == w0.slots@[j]);
                        assert(ae.0 > j);
                        assert(self.focus != Some(Entity(j as usize)));
                    }
                },
                None => {
                    assert forall|j: int|
                        0 <= j < w0.slots@.len() implies self.slots@[j] == w0.slots@[j] by {
                        assert(w2.slots@[j] == w0.slots@[j]);
                    }
                },
            }
        }
        (form_e, FormFields { form: form_e, bindings })
    }
}

} // verus!
