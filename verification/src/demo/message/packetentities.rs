//! Updates to entities: the objects of the game world, each an instance of a
//! class with the properties of that class.
//!
//! A message brings a list of updates, ordered by entity. An update may let
//! an entity enter the part of the world that is seen, change properties of
//! one that is seen, let one leave, or delete one. The values that it brings
//! are changes: a property that is not named keeps the value that the entity
//! had before, or, for an entity that enters, the value of the baseline of
//! its class.
use crate::demo::parser::ParseError;
use crate::demo::sendprop::{
    bits_for, classes_view, props_view, read_part, take_part, width_for, PropValue,
    PropValueView, SendProp, SendPropView, ServerClass,
};
use crate::stream::{take_bool, take_skip, take_uint, ReadError, Stream};
use vstd::arithmetic::power2::{lemma2_to64, lemma2_to64_rest};
use vstd::prelude::*;

verus! {

/// The number of bits of an entity index.
pub const MAX_EDICT_BITS: usize = 11;

/// The number of entities that can exist at a time.
pub const MAX_ENTITIES: usize = 2048;

/// The number of bits of the serial number of an entity.
pub const NETWORKED_EHANDLE_SERIAL_NUMBER_BITS: usize = 10;

/// The distance between entities that stands for the end of the updates.
pub const END_OF_UPDATES: u32 = 0x3fff;

/// What an update does to an entity.
#[derive(Clone, Copy, Debug, PartialEq, Eq, Structural)]
pub enum UpdateType {
    /// Properties of an entity that is seen change.
    Delta,
    /// The entity leaves what is seen.
    Leave,
    /// The entity enters what is seen.
    Enter,
    /// The entity is deleted.
    Delete,
}

impl UpdateType {
    /// The kind of update that two bits name.
    pub open spec fn from_id(raw: nat) -> Self {
        if raw == 0 {
            UpdateType::Delta
        } else if raw == 1 {
            UpdateType::Leave
        } else if raw == 2 {
            UpdateType::Enter
        } else {
            UpdateType::Delete
        }
    }

    /// The kind of update that two bits name.
    pub fn from_u8(raw: u8) -> (r: Self)
        ensures
            r == Self::from_id(raw as nat),
    {
        if raw == 0 {
            UpdateType::Delta
        } else if raw == 1 {
            UpdateType::Leave
        } else if raw == 2 {
            UpdateType::Enter
        } else {
            UpdateType::Delete
        }
    }
}

/// A new value for one property of an entity.
#[derive(Debug, Clone, PartialEq, Eq)]
pub struct PropChange {
    /// The place of the property among the properties of the class.
    pub index: usize,
    pub value: PropValue,
}

/// What a [`PropChange`] holds.
pub struct PropChangeView {
    pub index: int,
    pub value: PropValueView,
}

impl PropChange {
    /// What the change holds.
    pub open spec fn view(&self) -> PropChangeView {
        PropChangeView { index: self.index as int, value: self.value@ }
    }
}

/// The changes of a list.
pub open spec fn changes_view(changes: &Vec<PropChange>) -> Seq<PropChangeView> {
    Seq::new(changes@.len(), |i: int| changes@[i]@)
}

/// What decoding the distance to the next entity at `pos` gives: four bits,
/// and three more groups of four, four and sixteen bits, each behind a bit
/// that tells whether the group is there. The groups are the digits of the
/// distance, lowest first.
pub open spec fn take_distance(bits: Seq<bool>, pos: int) -> Result<(nat, int), ReadError> {
    match take_uint(bits, pos, 4) {
        Err(e) => Err(e),
        Ok((low, p1)) => match take_bool(bits, p1) {
            Err(e) => Err(e),
            Ok((has_second, p2)) => match take_part(bits, p2, has_second, 4) {
                Err(e) => Err(e),
                Ok((second, p3)) => match take_bool(bits, p3) {
                    Err(e) => Err(e),
                    Ok((has_third, p4)) => match take_part(bits, p4, has_third, 4) {
                        Err(e) => Err(e),
                        Ok((third, p5)) => match take_bool(bits, p5) {
                            Err(e) => Err(e),
                            Ok((has_fourth, p6)) => match take_part(bits, p6, has_fourth, 16) {
                                Err(e) => Err(e),
                                Ok((fourth, end)) => Ok(
                                    (low + 16 * second + 256 * third + 4096 * fourth, end),
                                ),
                            },
                        },
                    },
                },
            },
        },
    }
}

/// Reads the distance to the next entity.
pub fn read_distance(stream: &mut Stream) -> (r: Result<u32, ReadError>)
    requires
        old(stream).inv(),
    ensures
        final(stream).inv(),
        final(stream).same_window(old(stream)),
        (match take_distance(old(stream).bits(), old(stream).position()) {
            Ok((v, end)) => r == Ok::<u32, ReadError>(v as u32) && final(stream).position() == end
                && v < 0x1000_0000,
            Err(e) => r == Err::<u32, ReadError>(e),
        }),
{
    proof {
        lemma2_to64();
    }
    let low = match read_part(stream, true, 4) {
        Ok(v) => v,
        Err(e) => {
            return Err(e);
        },
    };
    let has_second = match stream.read_bool() {
        Ok(v) => v,
        Err(e) => {
            return Err(e);
        },
    };
    let second = match read_part(stream, has_second, 4) {
        Ok(v) => v,
        Err(e) => {
            return Err(e);
        },
    };
    let has_third = match stream.read_bool() {
        Ok(v) => v,
        Err(e) => {
            return Err(e);
        },
    };
    let third = match read_part(stream, has_third, 4) {
        Ok(v) => v,
        Err(e) => {
            return Err(e);
        },
    };
    let has_fourth = match stream.read_bool() {
        Ok(v) => v,
        Err(e) => {
            return Err(e);
        },
    };
    let fourth = match read_part(stream, has_fourth, 16) {
        Ok(v) => v,
        Err(e) => {
            return Err(e);
        },
    };
    Ok(low + 16 * second + 256 * third + 4096 * fourth)
}

/// What decoding the step to the next changed property at `pos` gives: a
/// bit that tells whether another property follows, and if so the number of
/// properties to pass over, in three bits; where those three bits are all
/// set, seven more bits follow and are added to them.
#[verifier::opaque]
pub open spec fn take_step(bits: Seq<bool>, pos: int) -> Result<(Option<nat>, int), ReadError> {
    match take_bool(bits, pos) {
        Err(e) => Err(e),
        Ok((more, p1)) => if !more {
            Ok((None, p1))
        } else {
            match take_uint(bits, p1, 3) {
                Err(e) => Err(e),
                Ok((base, p2)) => match take_part(bits, p2, base == 7, 7) {
                    Err(e) => Err(e),
                    Ok((extension, end)) => Ok((Some(base + extension), end)),
                },
            }
        },
    }
}

/// Reads the step to the next changed property.
pub fn read_step(stream: &mut Stream) -> (r: Result<Option<usize>, ReadError>)
    requires
        old(stream).inv(),
    ensures
        final(stream).inv(),
        final(stream).same_window(old(stream)),
        (match take_step(old(stream).bits(), old(stream).position()) {
            Ok((Some(step), end)) => r == Ok::<Option<usize>, ReadError>(Some(step as usize))
                && final(stream).position() == end && step < 256 && end > old(stream).position(),
            Ok((None, end)) => r == Ok::<Option<usize>, ReadError>(None)
                && final(stream).position() == end && end > old(stream).position(),
            Err(e) => r == Err::<Option<usize>, ReadError>(e),
        }),
{
    reveal(take_step);
    proof {
        lemma2_to64();
    }
    let more = match stream.read_bool() {
        Ok(v) => v,
        Err(e) => {
            return Err(e);
        },
    };
    if !more {
        return Ok(None);
    }
    let base = match read_part(stream, true, 3) {
        Ok(v) => v,
        Err(e) => {
            return Err(e);
        },
    };
    let extension = match read_part(stream, base == 7, 7) {
        Ok(v) => v,
        Err(e) => {
            return Err(e);
        },
    };
    Ok(Some((base + extension) as usize))
}

/// What decoding the changed properties of one entity at `pos` gives, for a
/// class with the properties `props`. The first step is counted from the
/// property `next`. A property outside those of the class is refused, and so
/// is a change that takes up no bits, with which the decoding would not come
/// to an end.
pub open spec fn take_prop_changes(
    props: Seq<SendPropView>,
    bits: Seq<bool>,
    pos: int,
    next: int,
) -> Result<
    (Seq<PropChangeView>, int),
    ParseError,
>
    decreases bits.len() - pos,
{
    match take_step(bits, pos) {
        Err(e) => Err(ParseError::of_read(e)),
        Ok((None, end)) => Ok((Seq::empty(), end)),
        Ok((Some(step), p1)) => if next + step >= props.len() || next + step < 0 {
            Err(ParseError::PropDecodeOverflow)
        } else {
            match props[next + step].parse(bits, p1) {
                Err(e) => Err(e),
                Ok((value, p2)) => if pos < p2 <= bits.len() {
                    match take_prop_changes(props, bits, p2, next + step + 1) {
                        Err(e) => Err(e),
                        Ok((rest, end)) => Ok(
                            (seq![PropChangeView { index: next + step, value }] + rest, end),
                        ),
                    }
                } else {
                    Err(ParseError::ReadOutOfBounds)
                },
            }
        },
    }
}

/// The outcome of decoding more changes, with those that were decoded before
/// put in front.
pub open spec fn after_prop_changes(
    done: Seq<PropChangeView>,
    more: Result<(Seq<PropChangeView>, int), ParseError>,
) -> Result<(Seq<PropChangeView>, int), ParseError> {
    match more {
        Ok((rest, end)) => Ok((done + rest, end)),
        Err(e) => Err(e),
    }
}

/// Reads the changed properties of one entity of a class with the
/// properties `props`.
pub fn read_prop_changes(stream: &mut Stream, props: &Vec<SendProp>) -> (r: Result<
    Vec<PropChange>,
    ParseError,
>)
    requires
        old(stream).inv(),
    ensures
        final(stream).inv(),
        final(stream).same_window(old(stream)),
        (match take_prop_changes(props_view(props), old(stream).bits(), old(stream).position(), 0) {
            Ok((changes, end)) => (r matches Ok(found) && changes_view(&found) == changes)
                && final(stream).position() == end,
            Err(e) => r matches Err(x) && x == e,
        }),
{
    let ghost bits = stream.bits();
    let ghost total = take_prop_changes(props_view(props), bits, stream.position(), 0);
    let mut out: Vec<PropChange> = Vec::new();
    let mut next: usize = 0;
    proof {
        match total {
            Ok((rest, end)) => {
                assert(changes_view(&out) + rest =~= rest);
            },
            Err(e) => {},
        }
    }
    loop
        invariant_except_break
            total == after_prop_changes(
                changes_view(&out),
                take_prop_changes(props_view(props), bits, stream.position(), next as int),
            ),
        invariant
            stream.inv(),
            stream.same_window(old(stream)),
            stream.bits() == bits,
            next <= props@.len(),
            total == take_prop_changes(
                props_view(props),
                old(stream).bits(),
                old(stream).position(),
                0,
            ),
        ensures
            total matches Ok(found) && found.0 == changes_view(&out) && found.1
                == stream.position(),
        decreases stream.remaining(),
    {
        let ghost done = changes_view(&out);
        let start = stream.pos();
        let step = match read_step(stream) {
            Ok(Some(step)) => step,
            Ok(None) => {
                proof {
                    assert(done + Seq::<PropChangeView>::empty() =~= done);
                }
                break ;
            },
            Err(e) => {
                return Err(ParseError::from_read(e));
            },
        };
        if step >= props.len() - next {
            return Err(ParseError::PropDecodeOverflow);
        }
        let index = next + step;
        assert(props_view(props)[index as int] == props@[index as int]@);
        let value = match props[index].read(stream) {
            Ok(v) => v,
            Err(e) => {
                return Err(e);
            },
        };
        if stream.pos() <= start {
            return Err(ParseError::ReadOutOfBounds);
        }
        let change = PropChange { index, value };
        proof {
            match take_prop_changes(props_view(props), bits, stream.position(), index + 1) {
                Ok((rest, end)) => {
                    assert(done + (seq![change@] + rest) =~= done.push(change@) + rest);
                },
                Err(e) => {},
            }
        }
        out.push(change);
        assert(changes_view(&out) =~= done.push(change@));
        next = index + 1;
    }
    Ok(out)
}

/// An update to one entity.
#[derive(Debug, Clone, PartialEq, Eq)]
pub struct EntityUpdate {
    pub entity_index: u32,
    pub update_type: UpdateType,
    /// The class of the entity: sent where it enters, known from before
    /// where its properties change, and zero otherwise.
    pub server_class: u16,
    /// The serial number of an entity that enters, and zero otherwise.
    pub serial_number: u32,
    pub changes: Vec<PropChange>,
}

/// What an [`EntityUpdate`] holds.
pub struct EntityUpdateView {
    pub entity_index: int,
    pub update_type: UpdateType,
    pub server_class: u16,
    pub serial_number: u32,
    pub changes: Seq<PropChangeView>,
}

impl EntityUpdate {
    /// What the update holds.
    pub open spec fn view(&self) -> EntityUpdateView {
        EntityUpdateView {
            entity_index: self.entity_index as int,
            update_type: self.update_type,
            server_class: self.server_class,
            serial_number: self.serial_number,
            changes: changes_view(&self.changes),
        }
    }
}

/// The updates of a list.
pub open spec fn updates_view(updates: &Vec<EntityUpdate>) -> Seq<EntityUpdateView> {
    Seq::new(updates@.len(), |i: int| updates@[i]@)
}

/// The values of the properties of an entity or of a baseline, by the place
/// of the property among those of the class. A property without a value has
/// none.
pub type PropValues = Vec<Option<PropValue>>;

/// What a list of values of properties holds.
pub open spec fn values_view(values: &PropValues) -> Seq<Option<PropValueView>> {
    Seq::new(
        values@.len(),
        |i: int|
            match values@[i] {
                Some(value) => Some(value@),
                None => None,
            },
    )
}

/// An entity as it was last seen.
#[derive(Debug, Clone, PartialEq, Eq)]
pub struct EntityState {
    pub server_class: u16,
    pub serial_number: u32,
    /// Whether the entity is in the part of the world that is seen.
    pub in_pvs: bool,
    pub props: PropValues,
}

/// What an [`EntityState`] holds.
pub struct EntityStateView {
    pub server_class: u16,
    pub serial_number: u32,
    pub in_pvs: bool,
    pub props: Seq<Option<PropValueView>>,
}

impl EntityState {
    /// What the entity holds.
    pub open spec fn view(&self) -> EntityStateView {
        EntityStateView {
            server_class: self.server_class,
            serial_number: self.serial_number,
            in_pvs: self.in_pvs,
            props: values_view(&self.props),
        }
    }
}

/// The entities of a list, by their index.
pub open spec fn entities_view(entities: &Vec<Option<EntityState>>) -> Seq<
    Option<EntityStateView>,
> {
    Seq::new(
        entities@.len(),
        |i: int|
            match entities@[i] {
                Some(entity) => Some(entity@),
                None => None,
            },
    )
}

/// The class of each entity of a list that exists, by the index of the
/// entity.
pub open spec fn entity_classes(entities: Seq<Option<EntityStateView>>) -> Seq<Option<u16>> {
    Seq::new(
        entities.len(),
        |i: int|
            match entities[i] {
                Some(entity) => Some(entity.server_class),
                None => None,
            },
    )
}

/// The number of bits of the id of a class among `count` classes: as many as
/// hold the greatest id.
pub open spec fn class_bits(count: nat) -> nat {
    if count == 0 {
        0
    } else {
        bits_for((count - 1) as nat)
    }
}

/// The id of a class as the update of an entity holds it.
pub open spec fn class_id(class: nat) -> u16 {
    if class <= u16::MAX {
        class as u16
    } else {
        u16::MAX
    }
}

/// What decoding an entity that enters gives: the id of its class, its
/// serial number in ten bits, and its properties that differ from the
/// baseline. The class must be one of `classes`, which holds the properties
/// of each declared class.
pub open spec fn take_enter(
    classes: Seq<Seq<SendPropView>>,
    bits: Seq<bool>,
    pos: int,
    index: int,
) -> Result<(EntityUpdateView, int), ParseError> {
    match take_uint(bits, pos, class_bits(classes.len()) as int) {
        Err(e) => Err(ParseError::of_read(e)),
        Ok((class, p1)) => if class >= classes.len() || class > u16::MAX {
            Err(ParseError::UnknownServerClass(class_id(class)))
        } else {
            match take_uint(bits, p1, 10) {
                Err(e) => Err(ParseError::of_read(e)),
                Ok((serial, p2)) => match take_prop_changes(classes[class as int], bits, p2, 0) {
                    Err(e) => Err(e),
                    Ok((changes, end)) => Ok(
                        (
                            EntityUpdateView {
                                entity_index: index,
                                update_type: UpdateType::Enter,
                                server_class: class as u16,
                                serial_number: serial as u32,
                                changes,
                            },
                            end,
                        ),
                    ),
                },
            }
        },
    }
}

/// What decoding the changes to an entity that is seen gives. The entity
/// must exist: `entity_classes` holds the class of each entity that does.
/// Its class must be declared.
pub open spec fn take_delta(
    classes: Seq<Seq<SendPropView>>,
    entity_classes: Seq<Option<u16>>,
    bits: Seq<bool>,
    pos: int,
    index: int,
) -> Result<(EntityUpdateView, int), ParseError> {
    if !(0 <= index < entity_classes.len()) || entity_classes[index] is None {
        Err(ParseError::InvalidEntityIndex(index as u32))
    } else {
        let class = entity_classes[index]->Some_0;
        if class >= classes.len() {
            Err(ParseError::UnknownServerClass(class))
        } else {
            match take_prop_changes(classes[class as int], bits, pos, 0) {
                Err(e) => Err(e),
                Ok((changes, end)) => Ok(
                    (
                        EntityUpdateView {
                            entity_index: index,
                            update_type: UpdateType::Delta,
                            server_class: class,
                            serial_number: 0,
                            changes,
                        },
                        end,
                    ),
                ),
            }
        }
    }
}

/// What decoding one update at `pos` gives: the update, or nothing where
/// the end of the updates is marked.
///
/// The update is for the entity that lies the decoded distance behind
/// entity `next`, which must be one of the 2048 that can exist. Two bits
/// name the kind of the update.
pub open spec fn take_update(
    classes: Seq<Seq<SendPropView>>,
    entity_classes: Seq<Option<u16>>,
    bits: Seq<bool>,
    pos: int,
    next: int,
) -> Result<(Option<EntityUpdateView>, int), ParseError> {
    match take_distance(bits, pos) {
        Err(e) => Err(ParseError::of_read(e)),
        Ok((distance, p1)) => if distance == END_OF_UPDATES {
            Ok((None, p1))
        } else if next + distance >= MAX_ENTITIES {
            Err(ParseError::InvalidEntityIndex((next + distance) as u32))
        } else {
            match take_uint(bits, p1, 2) {
                Err(e) => Err(ParseError::of_read(e)),
                Ok((kind, p2)) => match UpdateType::from_id(kind) {
                    UpdateType::Enter => match take_enter(classes, bits, p2, next + distance) {
                        Err(e) => Err(e),
                        Ok((update, end)) => Ok((Some(update), end)),
                    },
                    UpdateType::Delta => match take_delta(
                        classes,
                        entity_classes,
                        bits,
                        p2,
                        next + distance,
                    ) {
                        Err(e) => Err(e),
                        Ok((update, end)) => Ok((Some(update), end)),
                    },
                    other => Ok(
                        (
                            Some(
                                EntityUpdateView {
                                    entity_index: next + distance,
                                    update_type: other,
                                    server_class: 0,
                                    serial_number: 0,
                                    changes: Seq::empty(),
                                },
                            ),
                            p2,
                        ),
                    ),
                },
            }
        },
    }
}

/// What decoding up to `count` updates at `pos` gives. The updates end early
/// where their end is marked.
pub open spec fn take_updates(
    classes: Seq<Seq<SendPropView>>,
    entity_classes: Seq<Option<u16>>,
    bits: Seq<bool>,
    pos: int,
    next: int,
    count: nat,
) -> Result<(Seq<EntityUpdateView>, int), ParseError>
    decreases count,
{
    if count == 0 {
        Ok((Seq::empty(), pos))
    } else {
        match take_update(classes, entity_classes, bits, pos, next) {
            Err(e) => Err(e),
            Ok((None, end)) => Ok((Seq::empty(), end)),
            Ok((Some(update), p)) => match take_updates(
                classes,
                entity_classes,
                bits,
                p,
                update.entity_index + 1,
                (count - 1) as nat,
            ) {
                Err(e) => Err(e),
                Ok((rest, end)) => Ok((seq![update] + rest, end)),
            },
        }
    }
}

/// The outcome of decoding more updates, with those that were decoded before
/// put in front.
pub open spec fn after_updates(
    done: Seq<EntityUpdateView>,
    more: Result<(Seq<EntityUpdateView>, int), ParseError>,
) -> Result<(Seq<EntityUpdateView>, int), ParseError> {
    match more {
        Ok((rest, end)) => Ok((done + rest, end)),
        Err(e) => Err(e),
    }
}

/// The number of bits of the id of a class among `count` classes.
pub fn class_width(count: usize) -> (r: usize)
    ensures
        r == class_bits(count as nat),
        r <= 64,
{
    if count == 0 {
        0
    } else {
        width_for(count - 1)
    }
}

/// Reads an entity that enters.
pub fn read_enter(stream: &mut Stream, classes: &Vec<ServerClass>, index: u32) -> (r: Result<
    EntityUpdate,
    ParseError,
>)
    requires
        old(stream).inv(),
    ensures
        final(stream).inv(),
        final(stream).same_window(old(stream)),
        (match take_enter(
            classes_view(classes),
            old(stream).bits(),
            old(stream).position(),
            index as int,
        ) {
            Ok((view, end)) => (r matches Ok(found) && found@ == view)
                && final(stream).position() == end,
            Err(e) => r matches Err(x) && x == e,
        }),
{
    let class = match stream.read_int(class_width(classes.len())) {
        Ok(v) => {
            if v >= classes.len() as u64 || v > u16::MAX as u64 {
                let id = if v <= u16::MAX as u64 {
                    v as u16
                } else {
                    u16::MAX
                };
                return Err(ParseError::UnknownServerClass(id));
            }
            v as u16
        },
        Err(e) => {
            return Err(ParseError::from_read(e));
        },
    };
    let serial_number = match read_part(stream, true, NETWORKED_EHANDLE_SERIAL_NUMBER_BITS) {
        Ok(v) => v,
        Err(e) => {
            return Err(ParseError::from_read(e));
        },
    };
    let changes = match read_prop_changes(stream, &classes[class as usize].props) {
        Ok(v) => v,
        Err(e) => {
            return Err(e);
        },
    };
    Ok(
        EntityUpdate {
            entity_index: index,
            update_type: UpdateType::Enter,
            server_class: class,
            serial_number,
            changes,
        },
    )
}

/// Reads the changes to an entity that is seen.
pub fn read_delta(
    stream: &mut Stream,
    classes: &Vec<ServerClass>,
    entities: &Vec<Option<EntityState>>,
    index: u32,
) -> (r: Result<EntityUpdate, ParseError>)
    requires
        old(stream).inv(),
    ensures
        final(stream).inv(),
        final(stream).same_window(old(stream)),
        (match take_delta(
            classes_view(classes),
            entity_classes(entities_view(entities)),
            old(stream).bits(),
            old(stream).position(),
            index as int,
        ) {
            Ok((view, end)) => (r matches Ok(found) && found@ == view)
                && final(stream).position() == end,
            Err(e) => r matches Err(x) && x == e,
        }),
{
    if index as usize >= entities.len() {
        return Err(ParseError::InvalidEntityIndex(index));
    }
    let class = match &entities[index as usize] {
        Some(entity) => entity.server_class,
        None => {
            return Err(ParseError::InvalidEntityIndex(index));
        },
    };
    if class as usize >= classes.len() {
        return Err(ParseError::UnknownServerClass(class));
    }
    let changes = match read_prop_changes(stream, &classes[class as usize].props) {
        Ok(v) => v,
        Err(e) => {
            return Err(e);
        },
    };
    Ok(
        EntityUpdate {
            entity_index: index,
            update_type: UpdateType::Delta,
            server_class: class,
            serial_number: 0,
            changes,
        },
    )
}

/// Reads one update, or nothing where the end of the updates is marked.
pub fn read_update(
    stream: &mut Stream,
    classes: &Vec<ServerClass>,
    entities: &Vec<Option<EntityState>>,
    next: u32,
) -> (r: Result<Option<EntityUpdate>, ParseError>)
    requires
        old(stream).inv(),
        next <= MAX_ENTITIES,
    ensures
        final(stream).inv(),
        final(stream).same_window(old(stream)),
        (match take_update(
            classes_view(classes),
            entity_classes(entities_view(entities)),
            old(stream).bits(),
            old(stream).position(),
            next as int,
        ) {
            Ok((Some(view), end)) => (r matches Ok(Some(found)) && found@ == view)
                && final(stream).position() == end && view.entity_index < MAX_ENTITIES,
            Ok((None, end)) => r matches Ok(None) && final(stream).position() == end,
            Err(e) => r matches Err(x) && x == e,
        }),
{
    let distance = match read_distance(stream) {
        Ok(v) => v,
        Err(e) => {
            return Err(ParseError::from_read(e));
        },
    };
    if distance == END_OF_UPDATES {
        return Ok(None);
    }
    let index = next + distance;
    if index >= MAX_ENTITIES as u32 {
        return Err(ParseError::InvalidEntityIndex(index));
    }
    let kind = match stream.read_int(2) {
        Ok(v) => {
            proof {
                lemma2_to64();
            }
            UpdateType::from_u8(v as u8)
        },
        Err(e) => {
            return Err(ParseError::from_read(e));
        },
    };
    match kind {
        UpdateType::Enter => match read_enter(stream, classes, index) {
            Ok(update) => Ok(Some(update)),
            Err(e) => Err(e),
        },
        UpdateType::Delta => match read_delta(stream, classes, entities, index) {
            Ok(update) => Ok(Some(update)),
            Err(e) => Err(e),
        },
        _ => {
            let update = EntityUpdate {
                entity_index: index,
                update_type: kind,
                server_class: 0,
                serial_number: 0,
                changes: Vec::new(),
            };
            assert(changes_view(&update.changes) =~= Seq::<PropChangeView>::empty());
            Ok(Some(update))
        },
    }
}

/// Reads up to `count` updates.
pub fn read_updates(
    stream: &mut Stream,
    classes: &Vec<ServerClass>,
    entities: &Vec<Option<EntityState>>,
    count: usize,
) -> (r: Result<Vec<EntityUpdate>, ParseError>)
    requires
        old(stream).inv(),
    ensures
        final(stream).inv(),
        final(stream).same_window(old(stream)),
        (match take_updates(
            classes_view(classes),
            entity_classes(entities_view(entities)),
            old(stream).bits(),
            old(stream).position(),
            0,
            count as nat,
        ) {
            Ok((updates, end)) => (r matches Ok(found) && updates_view(&found) == updates)
                && final(stream).position() == end,
            Err(e) => r matches Err(x) && x == e,
        }),
{
    let ghost bits = stream.bits();
    let ghost total = take_updates(
        classes_view(classes),
        entity_classes(entities_view(entities)),
        bits,
        stream.position(),
        0,
        count as nat,
    );
    let mut out: Vec<EntityUpdate> = Vec::new();
    let mut next: u32 = 0;
    let mut i: usize = 0;
    proof {
        match total {
            Ok((rest, end)) => {
                assert(updates_view(&out) + rest =~= rest);
            },
            Err(e) => {},
        }
    }
    while i < count
        invariant_except_break
            total == after_updates(
                updates_view(&out),
                take_updates(
                    classes_view(classes),
                    entity_classes(entities_view(entities)),
                    bits,
                    stream.position(),
                    next as int,
                    (count - i) as nat,
                ),
            ),
        invariant
            i <= count,
            next <= MAX_ENTITIES,
            stream.inv(),
            stream.same_window(old(stream)),
            stream.bits() == bits,
            total == take_updates(
                classes_view(classes),
                entity_classes(entities_view(entities)),
                old(stream).bits(),
                old(stream).position(),
                0,
                count as nat,
            ),
        ensures
            total matches Ok(found) && found.0 == updates_view(&out) && found.1
                == stream.position(),
        decreases count - i,
    {
        let ghost done = updates_view(&out);
        let update = match read_update(stream, classes, entities, next) {
            Ok(Some(update)) => update,
            Ok(None) => {
                proof {
                    assert(done + Seq::<EntityUpdateView>::empty() =~= done);
                }
                break ;
            },
            Err(e) => {
                return Err(e);
            },
        };
        next = update.entity_index + 1;
        proof {
            match take_updates(
                classes_view(classes),
                entity_classes(entities_view(entities)),
                bits,
                stream.position(),
                next as int,
                (count - i - 1) as nat,
            ) {
                Ok((rest, end)) => {
                    assert(done + (seq![update@] + rest) =~= done.push(update@) + rest);
                },
                Err(e) => {},
            }
        }
        out.push(update);
        assert(updates_view(&out) =~= done.push(update@));
        i = i + 1;
    }
    proof {
        assert(updates_view(&out) + Seq::<EntityUpdateView>::empty() =~= updates_view(&out));
    }
    Ok(out)
}

/// What decoding the list of deleted entities at `pos` gives: as long as a
/// set bit follows, an entity index of eleven bits. The list ends with a
/// clear bit or with the data.
pub open spec fn take_removals(bits: Seq<bool>, pos: int) -> Result<Seq<u32>, ParseError>
    decreases bits.len() - pos,
{
    match take_bool(bits, pos) {
        Err(e) => Ok(Seq::empty()),
        Ok((more, p1)) => if !more {
            Ok(Seq::empty())
        } else {
            match take_uint(bits, p1, 11) {
                Err(e) => Err(ParseError::of_read(e)),
                Ok((index, p2)) => match take_removals(bits, p2) {
                    Err(e) => Err(e),
                    Ok(rest) => Ok(seq![index as u32] + rest),
                },
            }
        },
    }
}

/// The outcome of decoding more deleted entities, with those that were
/// decoded before put in front.
pub open spec fn after_removals(done: Seq<u32>, more: Result<Seq<u32>, ParseError>) -> Result<
    Seq<u32>,
    ParseError,
> {
    match more {
        Ok(rest) => Ok(done + rest),
        Err(e) => Err(e),
    }
}

/// Reads the list of deleted entities.
pub fn read_removals(stream: &mut Stream) -> (r: Result<Vec<u32>, ParseError>)
    requires
        old(stream).inv(),
    ensures
        final(stream).inv(),
        final(stream).same_window(old(stream)),
        (match take_removals(old(stream).bits(), old(stream).position()) {
            Ok(removed) => r matches Ok(found) && found@ == removed,
            Err(e) => r matches Err(x) && x == e,
        }),
{
    let ghost bits = stream.bits();
    let ghost total = take_removals(bits, stream.position());
    let mut out: Vec<u32> = Vec::new();
    proof {
        match total {
            Ok(rest) => {
                assert(out@ + rest =~= rest);
            },
            Err(e) => {},
        }
    }
    loop
        invariant_except_break
            total == after_removals(out@, take_removals(bits, stream.position())),
        invariant
            stream.inv(),
            stream.same_window(old(stream)),
            stream.bits() == bits,
            total == take_removals(old(stream).bits(), old(stream).position()),
        ensures
            total matches Ok(found) && found == out@,
        decreases stream.remaining(),
    {
        let ghost done = out@;
        let more = match stream.read_bool() {
            Ok(v) => v,
            Err(e) => {
                proof {
                    assert(done + Seq::<u32>::empty() =~= done);
                }
                break ;
            },
        };
        if !more {
            proof {
                assert(done + Seq::<u32>::empty() =~= done);
            }
            break ;
        }
        let index = match read_part(stream, true, MAX_EDICT_BITS) {
            Ok(v) => v,
            Err(e) => {
                return Err(ParseError::from_read(e));
            },
        };
        proof {
            match take_removals(bits, stream.position()) {
                Ok(rest) => {
                    assert(done + (seq![index] + rest) =~= done.push(index) + rest);
                },
                Err(e) => {},
            }
        }
        out.push(index);
    }
    Ok(out)
}

/// A message with updates to entities.
#[derive(Debug, Clone)]
pub struct PacketEntitiesMessage {
    pub max_entries: u16,
    /// The tick that the updates are changes against, if they are.
    pub delta: Option<i32>,
    /// Which of the two baselines of a class an entity that enters starts
    /// from.
    pub base_line: bool,
    pub updated_entries: u16,
    /// The length of the updates in bits.
    pub length: u32,
    /// Whether an entity that enters becomes the other baseline of its
    /// class.
    pub update_baseline: bool,
    pub updates: Vec<EntityUpdate>,
    pub removed: Vec<u32>,
}

/// What a [`PacketEntitiesMessage`] holds.
pub struct PacketEntitiesView {
    pub max_entries: u16,
    pub delta: Option<i32>,
    pub base_line: bool,
    pub updated_entries: u16,
    pub length: u32,
    pub update_baseline: bool,
    pub updates: Seq<EntityUpdateView>,
    pub removed: Seq<u32>,
}

/// The head of a message with updates, and the position behind it.
pub struct PacketEntitiesHead {
    pub max_entries: u16,
    pub delta: Option<i32>,
    pub base_line: bool,
    pub updated_entries: u16,
    pub length: u32,
    pub update_baseline: bool,
    pub end: int,
}

/// The number of bits of the length of the updates of a message.
pub const UPDATES_LENGTH_BITS: usize = 20;

/// The number of bits of the tick that the updates are changes against.
pub const DELTA_TICK_BITS: usize = 32;

impl PacketEntitiesMessage {
    /// What the message holds.
    pub open spec fn view(&self) -> PacketEntitiesView {
        PacketEntitiesView {
            max_entries: self.max_entries,
            delta: self.delta,
            base_line: self.base_line,
            updated_entries: self.updated_entries,
            length: self.length,
            update_baseline: self.update_baseline,
            updates: updates_view(&self.updates),
            removed: self.removed@,
        }
    }

    /// The number of bits that the head of a message takes up: 45, and 32
    /// more where it names the tick that the updates are changes against.
    pub open spec fn head_bits(is_delta: bool) -> int {
        if is_delta {
            77
        } else {
            45
        }
    }

    /// What decoding the head of a message at `pos` gives: the greatest
    /// number of entities in eleven bits; a bit that tells whether the
    /// updates are changes against an earlier tick, and if so that tick in
    /// 32 bits; the baseline to use; the number of updates in eleven bits;
    /// the length of the updates in twenty bits; and whether baselines are
    /// to be updated.
    pub open spec fn parse_head(
        bits: Seq<bool>,
        pos: int,
    ) -> Result<PacketEntitiesHead, ReadError> {
        match take_uint(bits, pos, 11) {
            Err(e) => Err(e),
            Ok((max_entries, p1)) => match take_bool(bits, p1) {
                Err(e) => Err(e),
                Ok((is_delta, p2)) => match take_part(bits, p2, is_delta, 32) {
                    Err(e) => Err(e),
                    Ok((tick, p3)) => match take_bool(bits, p3) {
                        Err(e) => Err(e),
                        Ok((base_line, p4)) => match take_uint(bits, p4, 11) {
                            Err(e) => Err(e),
                            Ok((updated_entries, p5)) => match take_uint(bits, p5, 20) {
                                Err(e) => Err(e),
                                Ok((length, p6)) => match take_bool(bits, p6) {
                                    Err(e) => Err(e),
                                    Ok((update_baseline, end)) => Ok(
                                        PacketEntitiesHead {
                                            max_entries: max_entries as u16,
                                            delta: if is_delta {
                                                Some(crate::stream::signed_of(tick, 32) as i32)
                                            } else {
                                                None
                                            },
                                            base_line,
                                            updated_entries: updated_entries as u16,
                                            length: length as u32,
                                            update_baseline,
                                            end,
                                        },
                                    ),
                                },
                            },
                        },
                    },
                },
            },
        }
    }

    /// What decoding the updates of a message gives, from the bits that the
    /// head sets apart for them: the updates, and behind them, where the
    /// updates are not changes against an earlier tick, the list of deleted
    /// entities.
    pub open spec fn parse_body(
        head: PacketEntitiesHead,
        classes: Seq<Seq<SendPropView>>,
        entities: Seq<Option<EntityStateView>>,
        body: Seq<bool>,
    ) -> Result<PacketEntitiesView, ParseError> {
        match take_updates(
            classes,
            entity_classes(entities),
            body,
            0,
            0,
            head.updated_entries as nat,
        ) {
            Err(e) => Err(e),
            Ok((updates, p)) => match (if head.delta is Some {
                Ok(Seq::empty())
            } else {
                take_removals(body, p)
            }) {
                Err(e) => Err(e),
                Ok(removed) => Ok(
                    PacketEntitiesView {
                        max_entries: head.max_entries,
                        delta: head.delta,
                        base_line: head.base_line,
                        updated_entries: head.updated_entries,
                        length: head.length,
                        update_baseline: head.update_baseline,
                        updates,
                        removed,
                    },
                ),
            },
        }
    }

    /// What decoding a message at `pos` gives: the message, and the position
    /// behind the bits that its head sets apart for the updates.
    #[verifier::opaque]
    pub open spec fn parse(
        classes: Seq<Seq<SendPropView>>,
        entities: Seq<Option<EntityStateView>>,
        bits: Seq<bool>,
        pos: int,
    ) -> Result<(PacketEntitiesView, int), ParseError> {
        match Self::parse_head(bits, pos) {
            Err(e) => Err(ParseError::of_read(e)),
            Ok(head) => match take_skip(bits, head.end, head.length as int) {
                Err(e) => Err(ParseError::of_read(e)),
                Ok(end) => match Self::parse_body(
                    head,
                    classes,
                    entities,
                    bits.subrange(head.end, end),
                ) {
                    Err(e) => Err(e),
                    Ok(message) => Ok((message, end)),
                },
            },
        }
    }

    /// Reads the head of a message.
    pub fn read_head(stream: &mut Stream) -> (r: Result<
        (u16, Option<i32>, bool, u16, u32, bool),
        ReadError,
    >)
        requires
            old(stream).inv(),
        ensures
            final(stream).inv(),
            final(stream).same_window(old(stream)),
            (match Self::parse_head(old(stream).bits(), old(stream).position()) {
                Ok(head) => r == Ok::<(u16, Option<i32>, bool, u16, u32, bool), ReadError>(
                    (
                        head.max_entries,
                        head.delta,
                        head.base_line,
                        head.updated_entries,
                        head.length,
                        head.update_baseline,
                    ),
                ) && final(stream).position() == head.end && head.end == old(stream).position()
                    + Self::head_bits(head.delta is Some),
                Err(e) => r == Err::<(u16, Option<i32>, bool, u16, u32, bool), ReadError>(e),
            }),
    {
        proof {
            lemma2_to64();
            lemma2_to64_rest();
        }
        let max_entries = match read_part(stream, true, MAX_EDICT_BITS) {
            Ok(v) => v as u16,
            Err(e) => {
                return Err(e);
            },
        };
        let is_delta = match stream.read_bool() {
            Ok(v) => v,
            Err(e) => {
                return Err(e);
            },
        };
        let delta = if is_delta {
            match stream.read_signed(DELTA_TICK_BITS) {
                Ok(v) => {
                    proof {
                        crate::bits::lemma_bits_value_bound(
                            stream.bits().subrange(
                                old(stream).position() + 12,
                                old(stream).position() + 44,
                            ),
                        );
                    }
                    Some(v as i32)
                },
                Err(e) => {
                    return Err(e);
                },
            }
        } else {
            None
        };
        let base_line = match stream.read_bool() {
            Ok(v) => v,
            Err(e) => {
                return Err(e);
            },
        };
        let updated_entries = match read_part(stream, true, MAX_EDICT_BITS) {
            Ok(v) => v as u16,
            Err(e) => {
                return Err(e);
            },
        };
        let length = match read_part(stream, true, UPDATES_LENGTH_BITS) {
            Ok(v) => v,
            Err(e) => {
                return Err(e);
            },
        };
        let update_baseline = match stream.read_bool() {
            Ok(v) => v,
            Err(e) => {
                return Err(e);
            },
        };
        Ok((max_entries, delta, base_line, updated_entries, length, update_baseline))
    }

    /// Reads a message, with the declared classes and the entities that
    /// exist at hand.
    ///
    /// Once the bits of the updates are there the cursor stands behind them,
    /// whether or not the updates can be decoded.
    pub fn read(
        stream: &mut Stream,
        classes: &Vec<ServerClass>,
        entities: &Vec<Option<EntityState>>,
    ) -> (r: Result<Self, ParseError>)
        requires
            old(stream).inv(),
        ensures
            final(stream).inv(),
            final(stream).same_window(old(stream)),
            (match Self::parse(
                classes_view(classes),
                entities_view(entities),
                old(stream).bits(),
                old(stream).position(),
            ) {
                Ok((view, end)) => (r matches Ok(found) && found@ == view)
                    && final(stream).position() == end,
                Err(e) => r matches Err(x) && x == e,
            }),
            Self::parse_head(old(stream).bits(), old(stream).position()) matches Ok(head) ==> (
            head.length <= old(stream).bits().len() - head.end ==> final(stream).position() == old(
                stream,
            ).position() + Self::head_bits(head.delta is Some) + head.length),
    {
        reveal(PacketEntitiesMessage::parse);
        let (max_entries, delta, base_line, updated_entries, length, update_baseline) =
            match Self::read_head(stream) {
            Ok(v) => v,
            Err(e) => {
                return Err(ParseError::from_read(e));
            },
        };
        let mut body = match stream.read_bits(length as usize) {
            Ok(v) => v,
            Err(e) => {
                return Err(ParseError::from_read(e));
            },
        };
        let updates = match read_updates(&mut body, classes, entities, updated_entries as usize) {
            Ok(v) => v,
            Err(e) => {
                return Err(e);
            },
        };
        let removed = if delta.is_some() {
            Vec::new()
        } else {
            match read_removals(&mut body) {
                Ok(v) => v,
                Err(e) => {
                    return Err(e);
                },
            }
        };
        Ok(
            PacketEntitiesMessage {
                max_entries,
                delta,
                base_line,
                updated_entries,
                length,
                update_baseline,
                updates,
                removed,
            },
        )
    }
}

/// The values after one change: the changed property has the new value. A
/// change to a property that the class does not have changes nothing.
pub open spec fn write_prop(props: Seq<Option<PropValueView>>, change: PropChangeView) -> Seq<
    Option<PropValueView>,
> {
    if 0 <= change.index < props.len() {
        props.update(change.index, Some(change.value))
    } else {
        props
    }
}

/// The values after a run of changes, first change first.
pub open spec fn write_props(
    props: Seq<Option<PropValueView>>,
    changes: Seq<PropChangeView>,
) -> Seq<
    Option<PropValueView>,
>
    decreases changes.len(),
{
    if changes.len() == 0 {
        props
    } else {
        write_props(write_prop(props, changes[0]), changes.drop_first())
    }
}

/// The value that the last change to property `index` brings, if any change
/// is to that property.
pub open spec fn last_write(changes: Seq<PropChangeView>, index: int) -> Option<PropValueView>
    decreases changes.len(),
{
    if changes.len() == 0 {
        None
    } else {
        match last_write(changes.drop_first(), index) {
            Some(value) => Some(value),
            None => if changes[0].index == index {
                Some(changes[0].value)
            } else {
                None
            },
        }
    }
}

/// After a run of changes each property has the value of the last change to
/// it, and a property that no change names has the value it had.
pub proof fn lemma_write_props(props: Seq<Option<PropValueView>>, changes: Seq<PropChangeView>)
    ensures
        write_props(props, changes).len() == props.len(),
        forall|i: int|
            0 <= i < props.len() ==> #[trigger] write_props(props, changes)[i] == (match last_write(
                changes,
                i,
            ) {
                Some(value) => Some(value),
                None => props[i],
            }),
    decreases changes.len(),
{
    if changes.len() > 0 {
        lemma_write_props(write_prop(props, changes[0]), changes.drop_first());
    }
}

/// Making the same changes a second time changes nothing: the values after
/// the changes are the values after the changes made twice.
pub proof fn lemma_write_props_idempotent(
    props: Seq<Option<PropValueView>>,
    changes: Seq<PropChangeView>,
)
    ensures
        write_props(write_props(props, changes), changes) == write_props(props, changes),
{
    let once = write_props(props, changes);
    lemma_write_props(props, changes);
    lemma_write_props(once, changes);
    assert(write_props(once, changes) =~= once);
}

/// The values that an entity starts from where it enters: those of the
/// baseline, for as many properties as the class has.
pub open spec fn reference_props(baseline: Seq<Option<PropValueView>>, size: nat) -> Seq<
    Option<PropValueView>,
> {
    Seq::new(
        size,
        |i: int|
            if i < baseline.len() {
                baseline[i]
            } else {
                None
            },
    )
}

/// An entity that enters without changes, from a baseline that was taken
/// from an entity of its class, has the values of that entity.
pub proof fn lemma_baseline_reproduces(
    first_baseline: Seq<Option<PropValueView>>,
    size: nat,
    changes: Seq<PropChangeView>,
)
    ensures
        ({
            let entered = write_props(reference_props(first_baseline, size), changes);
            write_props(reference_props(entered, size), Seq::empty()) == entered
        }),
{
    let entered = write_props(reference_props(first_baseline, size), changes);
    lemma_write_props(reference_props(first_baseline, size), changes);
    assert(reference_props(entered, size) =~= entered);
}

/// A copy of a list of values.
pub fn copy_values(values: &PropValues) -> (r: PropValues)
    ensures
        values_view(&r) == values_view(values),
{
    let mut out: PropValues = Vec::new();
    let mut i: usize = 0;
    while i < values.len()
        invariant
            i <= values@.len(),
            out@.len() == i,
            forall|j: int| 0 <= j < i ==> values_view(&out)[j] == values_view(values)[j],
        decreases values@.len() - i,
    {
        let ghost before = values_view(&out);
        let item = match &values[i] {
            Some(value) => Some(value.copy()),
            None => None,
        };
        out.push(item);
        assert forall|j: int| 0 <= j < i + 1 implies values_view(&out)[j] == values_view(
            values,
        )[j] by {
            if j < i {
                assert(values_view(&out)[j] == before[j]);
            }
        }
        i = i + 1;
    }
    assert(values_view(&out) =~= values_view(values));
    out
}

/// The values that an entity of a class with `size` properties starts from
/// where it enters.
pub fn reference_for(baseline: &PropValues, size: usize) -> (r: PropValues)
    ensures
        values_view(&r) == reference_props(values_view(baseline), size as nat),
{
    let mut out: PropValues = Vec::new();
    let mut i: usize = 0;
    while i < size
        invariant
            i <= size,
            out@.len() == i,
            forall|j: int|
                0 <= j < i ==> values_view(&out)[j] == reference_props(
                    values_view(baseline),
                    size as nat,
                )[j],
        decreases size - i,
    {
        let ghost before = values_view(&out);
        let item = if i < baseline.len() {
            match &baseline[i] {
                Some(value) => Some(value.copy()),
                None => None,
            }
        } else {
            None
        };
        out.push(item);
        assert forall|j: int| 0 <= j < i + 1 implies values_view(&out)[j] == reference_props(
            values_view(baseline),
            size as nat,
        )[j] by {
            if j < i {
                assert(values_view(&out)[j] == before[j]);
            }
        }
        i = i + 1;
    }
    assert(values_view(&out) =~= reference_props(values_view(baseline), size as nat));
    out
}

/// Makes a run of changes to the values of an entity.
pub fn write_changes(props: &mut PropValues, changes: &Vec<PropChange>)
    ensures
        values_view(final(props)) == write_props(values_view(old(props)), changes_view(changes)),
        final(props)@.len() == old(props)@.len(),
{
    let ghost start = values_view(props);
    let ghost all = changes_view(changes);
    let mut i: usize = 0;
    assert(all.skip(0) =~= all);
    while i < changes.len()
        invariant
            i <= changes@.len(),
            all == changes_view(changes),
            props@.len() == old(props)@.len(),
            write_props(values_view(props), all.skip(i as int)) == write_props(start, all),
        decreases changes@.len() - i,
    {
        let ghost before = values_view(props);
        let change = &changes[i];
        proof {
            assert(all.skip(i as int).drop_first() =~= all.skip(i + 1));
            assert(all.skip(i as int)[0] == change@);
        }
        if change.index < props.len() {
            props.set(change.index, Some(change.value.copy()));
            assert(values_view(props) =~= write_prop(before, change@));
        }
        i = i + 1;
    }
}

/// The entities that exist and the baselines of the classes.
#[derive(Debug)]
pub struct EntityWorld {
    /// The entities, by their index.
    pub entities: Vec<Option<EntityState>>,
    /// The baselines: for the class with id `c` the first at `2 * c` and the
    /// second at `2 * c + 1`.
    pub baselines: Vec<PropValues>,
}

/// What an [`EntityWorld`] holds.
pub struct WorldView {
    pub entities: Seq<Option<EntityStateView>>,
    pub baselines: Seq<Seq<Option<PropValueView>>>,
}

/// The place of a baseline of a class among the baselines.
pub open spec fn slot_of(class: int, second: bool) -> int {
    2 * class + if second {
        1int
    } else {
        0int
    }
}

/// What an update makes of the world.
///
/// An entity that enters starts from the baseline that the message names
/// and takes the changes of the update; where baselines are to be updated
/// its values become the other baseline of its class. Changes to an entity
/// that is seen are made to the values that it has. An entity that leaves is
/// kept and marked as not seen, and one that is deleted is gone. An update
/// for an entity outside the world, for a class that is not declared, or
/// with changes for an entity that does not exist is refused.
pub open spec fn apply_update(
    world: WorldView,
    sizes: Seq<nat>,
    update: EntityUpdateView,
    base_line: bool,
    update_baseline: bool,
) -> Result<WorldView, ParseError> {
    let index = update.entity_index;
    let class = update.server_class as int;
    if !(0 <= index < world.entities.len()) {
        Err(ParseError::InvalidEntityIndex(index as u32))
    } else {
        match update.update_type {
            UpdateType::Enter => if class >= sizes.len() || slot_of(class, true)
                >= world.baselines.len() {
                Err(ParseError::UnknownServerClass(update.server_class))
            } else {
                let props = write_props(
                    reference_props(world.baselines[slot_of(class, base_line)], sizes[class]),
                    update.changes,
                );
                Ok(
                    WorldView {
                        entities: world.entities.update(
                            index,
                            Some(
                                EntityStateView {
                                    server_class: update.server_class,
                                    serial_number: update.serial_number,
                                    in_pvs: true,
                                    props,
                                },
                            ),
                        ),
                        baselines: if update_baseline {
                            world.baselines.update(slot_of(class, !base_line), props)
                        } else {
                            world.baselines
                        },
                    },
                )
            },
            UpdateType::Delta => match world.entities[index] {
                None => Err(ParseError::InvalidEntityIndex(index as u32)),
                Some(entity) => Ok(
                    WorldView {
                        entities: world.entities.update(
                            index,
                            Some(
                                EntityStateView {
                                    server_class: entity.server_class,
                                    serial_number: entity.serial_number,
                                    in_pvs: true,
                                    props: write_props(entity.props, update.changes),
                                },
                            ),
                        ),
                        baselines: world.baselines,
                    },
                ),
            },
            UpdateType::Leave => match world.entities[index] {
                None => Ok(world),
                Some(entity) => Ok(
                    WorldView {
                        entities: world.entities.update(
                            index,
                            Some(
                                EntityStateView {
                                    server_class: entity.server_class,
                                    serial_number: entity.serial_number,
                                    in_pvs: false,
                                    props: entity.props,
                                },
                            ),
                        ),
                        baselines: world.baselines,
                    },
                ),
            },
            UpdateType::Delete => Ok(
                WorldView {
                    entities: world.entities.update(index, None),
                    baselines: world.baselines,
                },
            ),
        }
    }
}

/// The baselines of a list.
pub open spec fn baselines_view(baselines: &Vec<PropValues>) -> Seq<Seq<Option<PropValueView>>> {
    Seq::new(baselines@.len(), |i: int| values_view(&baselines@[i]))
}

/// The number of properties of each class of a list.
pub open spec fn class_sizes(classes: &Vec<ServerClass>) -> Seq<nat> {
    Seq::new(classes@.len(), |i: int| classes@[i].props@.len())
}

/// A world without entities, with empty baselines for `class_count`
/// classes.
pub open spec fn empty_world(class_count: nat) -> WorldView {
    WorldView {
        entities: Seq::new(MAX_ENTITIES as nat, |i: int| None),
        baselines: Seq::new(2 * class_count, |i: int| Seq::empty()),
    }
}

impl EntityWorld {
    /// What the world holds.
    pub open spec fn view(&self) -> WorldView {
        WorldView {
            entities: entities_view(&self.entities),
            baselines: baselines_view(&self.baselines),
        }
    }

    /// A world without entities, with empty baselines for `class_count`
    /// classes.
    pub fn new(class_count: usize) -> (r: Self)
        requires
            class_count <= usize::MAX / 2,
        ensures
            r@ == empty_world(class_count as nat),
            r.entities@.len() == MAX_ENTITIES,
            r.baselines@.len() == 2 * class_count,
    {
        let mut entities: Vec<Option<EntityState>> = Vec::new();
        let mut i: usize = 0;
        while i < MAX_ENTITIES
            invariant
                i <= MAX_ENTITIES,
                entities@.len() == i,
                forall|j: int| 0 <= j < i ==> entities@[j] is None,
            decreases MAX_ENTITIES - i,
        {
            entities.push(None);
            i = i + 1;
        }
        let mut baselines: Vec<PropValues> = Vec::new();
        let mut k: usize = 0;
        while k < 2 * class_count
            invariant
                k <= 2 * class_count,
                class_count <= usize::MAX / 2,
                baselines@.len() == k,
                forall|j: int| 0 <= j < k ==> baselines@[j]@.len() == 0,
            decreases 2 * class_count - k,
        {
            baselines.push(Vec::new());
            k = k + 1;
        }
        let world = EntityWorld { entities, baselines };
        proof {
            let empty = empty_world(class_count as nat);
            assert forall|j: int| 0 <= j < 2 * class_count implies world@.baselines[j]
                == empty.baselines[j] by {
                assert(values_view(&world.baselines@[j]) =~= Seq::empty());
            }
            assert(world@.baselines =~= empty.baselines);
            assert(world@.entities =~= empty.entities);
        }
        world
    }

    /// Makes one update to the world. An update that is refused changes
    /// nothing.
    pub fn apply(
        &mut self,
        classes: &Vec<ServerClass>,
        update: &EntityUpdate,
        base_line: bool,
        update_baseline: bool,
    ) -> (r: Result<(), ParseError>)
        ensures
            (match apply_update(
                old(self)@,
                class_sizes(classes),
                update@,
                base_line,
                update_baseline,
            ) {
                Ok(world) => r is Ok && final(self)@ == world,
                Err(e) => (r matches Err(x) && x == e) && *final(self) == *old(self),
            }),
            final(self).entities@.len() == old(self).entities@.len(),
            final(self).baselines@.len() == old(self).baselines@.len(),
    {
        let index = update.entity_index as usize;
        if index >= self.entities.len() {
            return Err(ParseError::InvalidEntityIndex(update.entity_index));
        }
        let class = update.server_class as usize;
        match update.update_type {
            UpdateType::Enter => {
                if class >= classes.len() || class >= self.baselines.len() / 2 {
                    return Err(ParseError::UnknownServerClass(update.server_class));
                }
                let from = if base_line {
                    2 * class + 1
                } else {
                    2 * class
                };
                let other = if base_line {
                    2 * class
                } else {
                    2 * class + 1
                };
                let mut props = reference_for(&self.baselines[from], classes[class].props.len());
                write_changes(&mut props, &update.changes);
                if update_baseline {
                    let copy = copy_values(&props);
                    self.baselines.set(other, copy);
                }
                self.entities.set(
                    index,
                    Some(
                        EntityState {
                            server_class: update.server_class,
                            serial_number: update.serial_number,
                            in_pvs: true,
                            props,
                        },
                    ),
                );
                proof {
                    let expected = apply_update(
                        old(self)@,
                        class_sizes(classes),
                        update@,
                        base_line,
                        update_baseline,
                    )->Ok_0;
                    assert(self@.entities =~= expected.entities);
                    assert(self@.baselines =~= expected.baselines);
                }
                Ok(())
            },
            UpdateType::Delta => {
                if self.entities[index].is_none() {
                    return Err(ParseError::InvalidEntityIndex(update.entity_index));
                }
                let mut taken: Option<EntityState> = None;
                std::mem::swap(&mut taken, &mut self.entities[index]);
                let mut entity = taken.unwrap();
                write_changes(&mut entity.props, &update.changes);
                entity.in_pvs = true;
                self.entities.set(index, Some(entity));
                proof {
                    let expected = apply_update(
                        old(self)@,
                        class_sizes(classes),
                        update@,
                        base_line,
                        update_baseline,
                    )->Ok_0;
                    assert(self@.entities =~= expected.entities);
                    assert(self@.baselines =~= expected.baselines);
                }
                Ok(())
            },
            UpdateType::Leave => {
                if self.entities[index].is_none() {
                    return Ok(());
                }
                let mut taken: Option<EntityState> = None;
                std::mem::swap(&mut taken, &mut self.entities[index]);
                let mut entity = taken.unwrap();
                entity.in_pvs = false;
                self.entities.set(index, Some(entity));
                proof {
                    let expected = apply_update(
                        old(self)@,
                        class_sizes(classes),
                        update@,
                        base_line,
                        update_baseline,
                    )->Ok_0;
                    assert(self@.entities =~= expected.entities);
                    assert(self@.baselines =~= expected.baselines);
                }
                Ok(())
            },
            UpdateType::Delete => {
                self.entities.set(index, None);
                proof {
                    let expected = apply_update(
                        old(self)@,
                        class_sizes(classes),
                        update@,
                        base_line,
                        update_baseline,
                    )->Ok_0;
                    assert(self@.entities =~= expected.entities);
                    assert(self@.baselines =~= expected.baselines);
                }
                Ok(())
            },
        }
    }
}

/// An update that is made a second time changes nothing more: the world
/// after the update is the world after the update made twice.
pub proof fn lemma_update_idempotent(
    world: WorldView,
    sizes: Seq<nat>,
    update: EntityUpdateView,
    base_line: bool,
    update_baseline: bool,
)
    ensures
        apply_update(world, sizes, update, base_line, update_baseline) matches Ok(once)
            ==> apply_update(once, sizes, update, base_line, update_baseline) == Ok::<
            WorldView,
            ParseError,
        >(once),
{
    match apply_update(world, sizes, update, base_line, update_baseline) {
        Ok(once) => {
            let index = update.entity_index;
            let twice = apply_update(once, sizes, update, base_line, update_baseline);
            match update.update_type {
                UpdateType::Delta => {
                    lemma_write_props_idempotent(
                        world.entities[index]->Some_0.props,
                        update.changes,
                    );
                },
                _ => {},
            }
            assert(twice is Ok);
            assert(twice->Ok_0.entities =~= once.entities);
            assert(twice->Ok_0.baselines =~= once.baselines);
        },
        Err(e) => {},
    }
}

/// An entity that enters while baselines are updated leaves its values as
/// the other baseline of its class; an entity of that class that enters
/// from that baseline without changes of its own has the same values.
pub proof fn lemma_baseline_consistency(
    world: WorldView,
    sizes: Seq<nat>,
    first: EntityUpdateView,
    second: EntityUpdateView,
    base_line: bool,
)
    requires
        first.update_type == UpdateType::Enter,
        second.update_type == UpdateType::Enter,
        second.server_class == first.server_class,
        second.changes.len() == 0,
        apply_update(world, sizes, first, base_line, true) is Ok,
        0 <= second.entity_index < world.entities.len(),
    ensures
        ({
            let after_first = apply_update(world, sizes, first, base_line, true)->Ok_0;
            let after_second = apply_update(after_first, sizes, second, !base_line, false);
            after_second matches Ok(last) && last.entities[second.entity_index] matches Some(
                entered,
            ) && after_first.entities[first.entity_index] matches Some(earlier) && entered.props
                == earlier.props
        }),
{
    let class = first.server_class as int;
    let earlier = write_props(
        reference_props(world.baselines[slot_of(class, base_line)], sizes[class]),
        first.changes,
    );
    lemma_baseline_reproduces(
        world.baselines[slot_of(class, base_line)],
        sizes[class],
        first.changes,
    );
    assert(second.changes =~= Seq::<PropChangeView>::empty());
}

/// What a run of updates makes of the world, first update first. The first
/// update that is refused ends the run.
pub open spec fn apply_updates(
    world: WorldView,
    sizes: Seq<nat>,
    updates: Seq<EntityUpdateView>,
    base_line: bool,
    update_baseline: bool,
) -> Result<WorldView, ParseError>
    decreases updates.len(),
{
    if updates.len() == 0 {
        Ok(world)
    } else {
        match apply_update(world, sizes, updates[0], base_line, update_baseline) {
            Err(e) => Err(e),
            Ok(next) => apply_updates(
                next,
                sizes,
                updates.drop_first(),
                base_line,
                update_baseline,
            ),
        }
    }
}

/// The world without the entities `removed`. An index outside the world
/// removes nothing.
pub open spec fn remove_entities(world: WorldView, removed: Seq<u32>) -> WorldView
    decreases removed.len(),
{
    if removed.len() == 0 {
        world
    } else {
        remove_entities(
            WorldView {
                entities: if removed[0] < world.entities.len() {
                    world.entities.update(removed[0] as int, None)
                } else {
                    world.entities
                },
                baselines: world.baselines,
            },
            removed.drop_first(),
        )
    }
}

/// What a message makes of the world: its updates, and then its deleted
/// entities.
pub open spec fn apply_message(
    world: WorldView,
    sizes: Seq<nat>,
    message: PacketEntitiesView,
) -> Result<
    WorldView,
    ParseError,
> {
    match apply_updates(
        world,
        sizes,
        message.updates,
        message.base_line,
        message.update_baseline,
    ) {
        Err(e) => Err(e),
        Ok(next) => Ok(remove_entities(next, message.removed)),
    }
}

impl EntityWorld {
    /// Makes the updates of a message to the world and removes the entities
    /// that it deletes. Where an update is refused the updates before it
    /// stay made.
    pub fn apply_message(
        &mut self,
        classes: &Vec<ServerClass>,
        message: &PacketEntitiesMessage,
    ) -> (r: Result<(), ParseError>)
        ensures
            (match apply_message(old(self)@, class_sizes(classes), message@) {
                Ok(world) => r is Ok && final(self)@ == world,
                Err(e) => r matches Err(x) && x == e,
            }),
            final(self).entities@.len() == old(self).entities@.len(),
            final(self).baselines@.len() == old(self).baselines@.len(),
    {
        let ghost all = updates_view(&message.updates);
        let ghost sizes = class_sizes(classes);
        let ghost total = apply_updates(
            self@,
            sizes,
            all,
            message.base_line,
            message.update_baseline,
        );
        let mut i: usize = 0;
        assert(all.skip(0) =~= all);
        while i < message.updates.len()
            invariant
                i <= message.updates@.len(),
                all == updates_view(&message.updates),
                sizes == class_sizes(classes),
                total == apply_updates(
                    old(self)@,
                    sizes,
                    all,
                    message.base_line,
                    message.update_baseline,
                ),
                total == apply_updates(
                    self@,
                    sizes,
                    all.skip(i as int),
                    message.base_line,
                    message.update_baseline,
                ),
                self.entities@.len() == old(self).entities@.len(),
                self.baselines@.len() == old(self).baselines@.len(),
            decreases message.updates@.len() - i,
        {
            proof {
                assert(all.skip(i as int).drop_first() =~= all.skip(i + 1));
                assert(all.skip(i as int)[0] == message.updates@[i as int]@);
            }
            match self.apply(
                classes,
                &message.updates[i],
                message.base_line,
                message.update_baseline,
            ) {
                Ok(()) => {},
                Err(e) => {
                    return Err(e);
                },
            }
            i = i + 1;
        }
        let ghost after_updates = self@;
        let ghost gone = message.removed@;
        let mut k: usize = 0;
        assert(gone.skip(0) =~= gone);
        while k < message.removed.len()
            invariant
                k <= message.removed@.len(),
                gone == message.removed@,
                remove_entities(self@, gone.skip(k as int)) == remove_entities(after_updates, gone),
                self.entities@.len() == old(self).entities@.len(),
                self.baselines@.len() == old(self).baselines@.len(),
            decreases message.removed@.len() - k,
        {
            let ghost before = self@;
            proof {
                assert(gone.skip(k as int).drop_first() =~= gone.skip(k + 1));
            }
            let index = message.removed[k] as usize;
            if index < self.entities.len() {
                self.entities.set(index, None);
                assert(self@.entities =~= before.entities.update(index as int, None));
                assert(self@.baselines =~= before.baselines);
            }
            k = k + 1;
        }
        Ok(())
    }
}

} // verus!
