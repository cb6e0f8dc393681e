//! Behavior property schemas.
//!
//! Each behavior type reads its typed record out of a parsed metadata
//! object. Every field is optional: an absent field takes the schema's
//! default, an unknown field is ignored, and a field of the wrong
//! shape is a schema mismatch — a fatal content error for the entity
//! being registered. A behavior with no fields of its own still
//! demands that whatever metadata the author wrote parses as an
//! object.

use vstd::prelude::*;

use crate::button::Button;
use crate::fixed::{Vec3Milli, OFFSET_LIMIT};
use crate::json::{PropValue, PropView};
use crate::phone::Phone;
use crate::teleport::Teleport;
use crate::text::str_eq;
use crate::trigger::Trigger;

verus! {

/// The value stored under `key`, front to back.
pub open spec fn prop_lookup(props: Seq<(Seq<char>, PropView)>, key: Seq<char>) -> Option<
    PropView,
>
    decreases props.len(),
{
    if props.len() == 0 {
        None
    } else if props[0].0 == key {
        Some(props[0].1)
    } else {
        prop_lookup(props.drop_first(), key)
    }
}

/// A boolean field: absent means `default`; any non-boolean value is a
/// mismatch.
pub open spec fn bool_field(
    props: Seq<(Seq<char>, PropView)>,
    key: Seq<char>,
    default: bool,
) -> Option<bool> {
    match prop_lookup(props, key) {
        None => Some(default),
        Some(PropView::Bool(b)) => Some(b),
        Some(_) => None,
    }
}

/// An unsigned integer field: absent means `default`; the value must
/// be a number written without a fraction, within `u32`.
pub open spec fn u32_field(
    props: Seq<(Seq<char>, PropView)>,
    key: Seq<char>,
    default: u32,
) -> Option<u32> {
    match prop_lookup(props, key) {
        None => Some(default),
        Some(PropView::Num(n)) => if n.integral && 0 <= n.milli && n.milli / 1000 <= u32::MAX {
            Some((n.milli / 1000) as u32)
        } else {
            None
        },
        Some(_) => None,
    }
}

/// A non-negative rate field in thousandths: absent means `0`; the
/// value may carry a fraction but not a sign, and must fit `u32`.
pub open spec fn rate_field(props: Seq<(Seq<char>, PropView)>, key: Seq<char>) -> Option<u32> {
    match prop_lookup(props, key) {
        None => Some(0),
        Some(PropView::Num(n)) => if 0 <= n.milli <= u32::MAX {
            Some(n.milli as u32)
        } else {
            None
        },
        Some(_) => None,
    }
}

/// A position offset field: absent means the origin; the value must be
/// an array of exactly three numbers within the offset bound.
pub open spec fn vec3_field(props: Seq<(Seq<char>, PropView)>, key: Seq<char>) -> Option<
    Vec3Milli,
> {
    match prop_lookup(props, key) {
        None => Some(Vec3Milli { x: 0, y: 0, z: 0 }),
        Some(PropView::Nums(a)) => if a.len() == 3 && -OFFSET_LIMIT <= a[0].milli <= OFFSET_LIMIT
            && -OFFSET_LIMIT <= a[1].milli <= OFFSET_LIMIT && -OFFSET_LIMIT <= a[2].milli
            <= OFFSET_LIMIT {
            Some(Vec3Milli { x: a[0].milli, y: a[1].milli, z: a[2].milli })
        } else {
            None
        },
        Some(_) => None,
    }
}

/// A text field: absent means "no value given"; anything but a string
/// is a mismatch.
pub open spec fn text_field(props: Seq<(Seq<char>, PropView)>, key: Seq<char>) -> Option<
    Option<Seq<char>>,
> {
    match prop_lookup(props, key) {
        None => Some(None),
        Some(PropView::Text(t)) => Some(Some(t)),
        Some(_) => None,
    }
}

/// The button schema: `{"enabled": bool}`, enabled by default.
pub open spec fn button_schema(props: Seq<(Seq<char>, PropView)>) -> Option<Button> {
    match bool_field(props, "enabled"@, true) {
        Some(enabled) => Some(Button { enabled }),
        None => None,
    }
}

/// The trigger schema: `{"enabled": bool}`, enabled by default.
pub open spec fn trigger_schema(props: Seq<(Seq<char>, PropView)>) -> Option<Trigger> {
    match bool_field(props, "enabled"@, true) {
        Some(enabled) => Some(Trigger { enabled }),
        None => None,
    }
}

/// The phone schema: `{"enabled": bool, "number": u32}`.
pub open spec fn phone_schema(props: Seq<(Seq<char>, PropView)>) -> Option<Phone> {
    match bool_field(props, "enabled"@, true) {
        None => None,
        Some(enabled) => match u32_field(props, "number"@, 0) {
            Some(number) => Some(Phone { enabled, number }),
            None => None,
        },
    }
}

/// The linear door's authored fields: its speed and its travel offset.
#[derive(Clone, Copy, Debug, PartialEq, Eq, Structural)]
pub struct DoorProps {
    /// Thousandths of full progress per second.
    pub speed: u32,
    /// Offset from origin to the fully open position, in thousandths.
    pub move_to: Vec3Milli,
}

/// The door schema: `{"speed": number >= 0, "move_to": [x, y, z]}`.
pub open spec fn door_schema(props: Seq<(Seq<char>, PropView)>) -> Option<DoorProps> {
    match rate_field(props, "speed"@) {
        None => None,
        Some(speed) => match vec3_field(props, "move_to"@) {
            Some(move_to) => Some(DoorProps { speed, move_to }),
            None => None,
        },
    }
}

/// The mathematical shape of a teleport's authored fields.
pub struct TeleportShape {
    pub destination: Seq<char>,
    pub enabled: bool,
}

/// The teleport schema: `{"destination": string, "enabled": bool}`,
/// enabled by default, aimed nowhere by default.
pub open spec fn teleport_schema(props: Seq<(Seq<char>, PropView)>) -> Option<TeleportShape> {
    match bool_field(props, "enabled"@, true) {
        None => None,
        Some(enabled) => match text_field(props, "destination"@) {
            Some(dest) => Some(
                TeleportShape {
                    destination: match dest {
                        Some(t) => t,
                        None => Seq::empty(),
                    },
                    enabled,
                },
            ),
            None => None,
        },
    }
}

/// The stored value under `key`, by character comparison.
fn find_prop<'a>(props: &'a Vec<(String, PropValue)>, key: &str) -> (r: Option<&'a PropValue>)
    ensures
        match r {
            Some(v) => prop_lookup(crate::json::props_view(props@), key@) == Some(v@),
            None => prop_lookup(crate::json::props_view(props@), key@) is None,
        },
{
    let ghost view = crate::json::props_view(props@);
    let n = props.len();
    let mut i: usize = 0;
    proof {
        assert(view.skip(0) =~= view);
    }
    while i < n
        invariant
            n == props@.len(),
            view == crate::json::props_view(props@),
            view.len() == n,
            0 <= i <= n,
            prop_lookup(view, key@) == prop_lookup(view.skip(i as int), key@),
        decreases n - i,
    {
        proof {
            assert(view.skip(i as int)[0] == view[i as int]);
        }
        if str_eq(props[i].0.as_str(), key) {
            return Some(&props[i].1);
        }
        proof {
            assert(view.skip(i as int).drop_first() =~= view.skip(i as int + 1));
        }
        i += 1;
    }
    proof {
        assert(view.skip(n as int) =~= Seq::<(Seq<char>, PropView)>::empty());
    }
    None
}

/// Read a boolean field.
fn read_bool_field(props: &Vec<(String, PropValue)>, key: &str, default: bool) -> (r: Option<
    bool,
>)
    ensures
        r == bool_field(crate::json::props_view(props@), key@, default),
{
    match find_prop(props, key) {
        None => Some(default),
        Some(PropValue::Bool(b)) => Some(*b),
        Some(_) => None,
    }
}

/// Read an unsigned integer field.
fn read_u32_field(props: &Vec<(String, PropValue)>, key: &str, default: u32) -> (r: Option<u32>)
    ensures
        r == u32_field(crate::json::props_view(props@), key@, default),
{
    match find_prop(props, key) {
        None => Some(default),
        Some(PropValue::Num(n)) => {
            if n.integral && 0 <= n.milli && n.milli / 1000 <= u32::MAX as i64 {
                Some((n.milli / 1000) as u32)
            } else {
                None
            }
        }
        Some(_) => None,
    }
}

/// Read a non-negative rate field in thousandths.
fn read_rate_field(props: &Vec<(String, PropValue)>, key: &str) -> (r: Option<u32>)
    ensures
        r == rate_field(crate::json::props_view(props@), key@),
{
    match find_prop(props, key) {
        None => Some(0),
        Some(PropValue::Num(n)) => {
            if 0 <= n.milli && n.milli <= u32::MAX as i64 {
                Some(n.milli as u32)
            } else {
                None
            }
        }
        Some(_) => None,
    }
}

/// Read a three-number offset field.
fn read_vec3_field(props: &Vec<(String, PropValue)>, key: &str) -> (r: Option<Vec3Milli>)
    ensures
        r == vec3_field(crate::json::props_view(props@), key@),
        r matches Some(v) ==> v.wf(),
{
    match find_prop(props, key) {
        None => Some(Vec3Milli { x: 0, y: 0, z: 0 }),
        Some(PropValue::Nums(a)) => {
            if a.len() == 3 {
                let x = a[0].milli;
                let y = a[1].milli;
                let z = a[2].milli;
                if -OFFSET_LIMIT <= x && x <= OFFSET_LIMIT && -OFFSET_LIMIT <= y && y <= OFFSET_LIMIT
                    && -OFFSET_LIMIT <= z && z <= OFFSET_LIMIT {
                    Some(Vec3Milli { x, y, z })
                } else {
                    None
                }
            } else {
                None
            }
        }
        Some(_) => None,
    }
}

/// Build a button from its parsed metadata.
pub fn button_props(props: &Vec<(String, PropValue)>) -> (r: Option<Button>)
    ensures
        r == button_schema(crate::json::props_view(props@)),
{
    match read_bool_field(props, "enabled", true) {
        Some(enabled) => Some(Button { enabled }),
        None => None,
    }
}

/// Build a trigger from its parsed metadata.
pub fn trigger_props(props: &Vec<(String, PropValue)>) -> (r: Option<Trigger>)
    ensures
        r == trigger_schema(crate::json::props_view(props@)),
{
    match read_bool_field(props, "enabled", true) {
        Some(enabled) => Some(Trigger { enabled }),
        None => None,
    }
}

/// Build a phone from its parsed metadata.
pub fn phone_props(props: &Vec<(String, PropValue)>) -> (r: Option<Phone>)
    ensures
        r == phone_schema(crate::json::props_view(props@)),
{
    match read_bool_field(props, "enabled", true) {
        None => None,
        Some(enabled) => match read_u32_field(props, "number", 0) {
            Some(number) => Some(Phone { enabled, number }),
            None => None,
        },
    }
}

/// Build a door's authored fields from its parsed metadata.
pub fn door_props(props: &Vec<(String, PropValue)>) -> (r: Option<DoorProps>)
    ensures
        r == door_schema(crate::json::props_view(props@)),
        r matches Some(d) ==> d.move_to.wf(),
{
    match read_rate_field(props, "speed") {
        None => None,
        Some(speed) => match read_vec3_field(props, "move_to") {
            Some(move_to) => Some(DoorProps { speed, move_to }),
            None => None,
        },
    }
}

/// Build a teleport from its parsed metadata.
pub fn teleport_props(props: &Vec<(String, PropValue)>) -> (r: Option<Teleport>)
    ensures
        match r {
            Some(t) => teleport_schema(crate::json::props_view(props@)) == Some(
                TeleportShape { destination: t.destination@, enabled: t.enabled },
            ),
            None => teleport_schema(crate::json::props_view(props@)) is None,
        },
{
    match read_bool_field(props, "enabled", true) {
        None => None,
        Some(enabled) => match find_prop(props, "destination") {
            None => Some(Teleport { destination: String::new(), enabled }),
            Some(PropValue::Text(t)) => Some(Teleport { destination: t.clone(), enabled }),
            Some(_) => None,
        },
    }
}

} // verus!
