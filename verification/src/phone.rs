//! Phones: a keypad the player dials a number on.
//!
//! The host renders the keypad and maps raw input to keypad keys; the
//! dialing rules live here. While the phone UI is visible and enabled,
//! each key press appends its character, backspace removes the last
//! one, and the press that reaches the full number length submits the
//! dialed number and disables further input until the call feedback is
//! over.

use vstd::prelude::*;

verus! {

/// How many characters make a complete number.
pub const PHONE_NUMBER_LEN: usize = 7;

/// A phone which can have a number dialed on it.
#[derive(Clone, Copy, Debug, PartialEq, Eq, Structural)]
pub struct Phone {
    pub enabled: bool,
    /// The number this phone expects, as authored metadata.
    pub number: u32,
}

impl Default for Phone {
    /// Phones are enabled and expect no particular number.
    fn default() -> (r: Phone)
        ensures
            r.enabled,
            r.number == 0,
    {
        Phone { enabled: true, number: 0 }
    }
}

/// One key of the phone's keypad.
#[derive(Clone, Copy, Debug, PartialEq, Eq, Structural)]
pub enum PhoneKey {
    Key0,
    Key1,
    Key2,
    Key3,
    Key4,
    Key5,
    Key6,
    Key7,
    Key8,
    Key9,
    KeyHash,
    KeyAsterix,
}

/// The character a keypad key enters.
pub open spec fn key_char_spec(k: PhoneKey) -> char {
    match k {
        PhoneKey::Key0 => '0',
        PhoneKey::Key1 => '1',
        PhoneKey::Key2 => '2',
        PhoneKey::Key3 => '3',
        PhoneKey::Key4 => '4',
        PhoneKey::Key5 => '5',
        PhoneKey::Key6 => '6',
        PhoneKey::Key7 => '7',
        PhoneKey::Key8 => '8',
        PhoneKey::Key9 => '9',
        PhoneKey::KeyHash => '#',
        PhoneKey::KeyAsterix => '*',
    }
}

impl PhoneKey {
    /// The character this key enters.
    pub fn entered_char(self) -> (c: char)
        ensures
            c == key_char_spec(self),
    {
        match self {
            PhoneKey::Key0 => '0',
            PhoneKey::Key1 => '1',
            PhoneKey::Key2 => '2',
            PhoneKey::Key3 => '3',
            PhoneKey::Key4 => '4',
            PhoneKey::Key5 => '5',
            PhoneKey::Key6 => '6',
            PhoneKey::Key7 => '7',
            PhoneKey::Key8 => '8',
            PhoneKey::Key9 => '9',
            PhoneKey::KeyHash => '#',
            PhoneKey::KeyAsterix => '*',
        }
    }
}

/// A complete number was dialed.
pub struct PhoneSubmitEvent {
    pub number: Vec<char>,
}

/// The dialing state of the phone UI.
pub struct PhoneDialer {
    /// Whether the phone UI is shown.
    pub visible: bool,
    /// Whether the keypad takes input; cleared after a submit until the
    /// call feedback finishes.
    pub enabled: bool,
    pub entered: Vec<char>,
}

impl PhoneDialer {
    /// The characters dialed so far.
    pub open spec fn entered_view(&self) -> Seq<char> {
        self.entered@
    }

    /// Whether a key press reaches the dialer at all.
    pub open spec fn takes_input(&self) -> bool {
        self.visible && self.enabled
    }

    /// A hidden, idle phone with nothing dialed.
    pub fn new() -> (r: PhoneDialer)
        ensures
            !r.visible,
            r.enabled,
            r.entered_view() == Seq::<char>::empty(),
    {
        PhoneDialer { visible: false, enabled: true, entered: Vec::new() }
    }

    /// Show or hide the phone UI; picking up or hanging up the handset.
    pub fn toggle_visibility(&mut self)
        ensures
            final(self).visible == !old(self).visible,
            final(self).enabled == old(self).enabled,
            final(self).entered_view() == old(self).entered_view(),
    {
        self.visible = !self.visible;
    }

    /// Dial one key. While the dialer takes input the key's character is
    /// appended; the press that completes [`PHONE_NUMBER_LEN`]
    /// characters submits the dialed number exactly once and disables
    /// the keypad. Otherwise nothing changes.
    pub fn press_key(&mut self, key: PhoneKey) -> (submit: Option<PhoneSubmitEvent>)
        ensures
            !old(self).takes_input() ==> {
                &&& *final(self) == *old(self)
                &&& submit is None
            },
            old(self).takes_input() ==> {
                &&& final(self).entered_view() == old(self).entered_view().push(
                    key_char_spec(key),
                )
                &&& final(self).visible == old(self).visible
                &&& {
                    if final(self).entered_view().len() >= PHONE_NUMBER_LEN {
                        &&& !final(self).enabled
                        &&& match submit {
                            Some(ev) => ev.number@ == final(self).entered_view(),
                            None => false,
                        }
                    } else {
                        &&& final(self).enabled == old(self).enabled
                        &&& submit is None
                    }
                }
            },
    {
        if self.visible && self.enabled {
            let c = key.entered_char();
            self.entered.push(c);
            if self.entered.len() >= PHONE_NUMBER_LEN {
                let number = clone_chars(&self.entered);
                self.enabled = false;
                Some(PhoneSubmitEvent { number })
            } else {
                None
            }
        } else {
            None
        }
    }

    /// Remove the last dialed character, while the dialer takes input.
    pub fn backspace(&mut self)
        ensures
            !old(self).takes_input() ==> *final(self) == *old(self),
            old(self).takes_input() ==> {
                &&& final(self).entered_view() == if old(self).entered_view().len() == 0 {
                    old(self).entered_view()
                } else {
                    old(self).entered_view().drop_last()
                }
                &&& final(self).visible == old(self).visible
                &&& final(self).enabled == old(self).enabled
            },
    {
        if self.visible && self.enabled {
            if self.entered.len() > 0 {
                self.entered.pop();
            }
        }
    }

    /// The call feedback finished: clear the dialed number and take
    /// input again.
    pub fn finish_call(&mut self)
        ensures
            final(self).entered_view() == Seq::<char>::empty(),
            final(self).enabled,
            final(self).visible == old(self).visible,
    {
        self.entered = Vec::new();
        self.enabled = true;
    }
}

/// The phone menu should open: the player pressed while looking at an
/// enabled phone.
#[derive(Clone, Debug)]
pub struct PhoneMenuOpenEvent {
    pub name: Option<String>,
    pub entity: u64,
}

/// One phone entity as the host sees it this frame.
pub struct PhoneRef {
    pub entity: u64,
    pub name: Option<String>,
    pub phone: Phone,
}

/// The first listed phone attached to entity `e`.
pub open spec fn find_phone(phones: Seq<PhoneRef>, e: u64) -> Option<PhoneRef>
    decreases phones.len(),
{
    if phones.len() == 0 {
        None
    } else if phones[0].entity == e {
        Some(phones[0])
    } else {
        find_phone(phones.drop_first(), e)
    }
}

/// The menu-open event one press yields, when the press's sensor ray
/// hit an enabled phone.
pub open spec fn phone_open_spec(
    press_fired: bool,
    ray_hit: Option<u64>,
    phones: Seq<PhoneRef>,
) -> Option<(Option<Seq<char>>, u64)> {
    if press_fired {
        match ray_hit {
            Some(e) => match find_phone(phones, e) {
                Some(p) => if p.phone.enabled {
                    Some(
                        (
                            match p.name {
                                Some(n) => Some(n@),
                                None => None,
                            },
                            e,
                        ),
                    )
                } else {
                    None
                },
                None => None,
            },
            None => None,
        }
    } else {
        None
    }
}

/// Open the phone menu when the press input fired while the sensor ray
/// rested on an enabled phone; nothing otherwise.
pub fn phone_interact_events(
    press_fired: bool,
    ray_hit: Option<u64>,
    phones: &Vec<PhoneRef>,
) -> (r: Option<PhoneMenuOpenEvent>)
    ensures
        match r {
            Some(ev) => phone_open_spec(press_fired, ray_hit, phones@) == Some(
                (
                    match ev.name {
                        Some(n) => Some(n@),
                        None => None::<Seq<char>>,
                    },
                    ev.entity,
                ),
            ),
            None => phone_open_spec(press_fired, ray_hit, phones@) is None,
        },
{
    if !press_fired {
        return None;
    }
    let e = match ray_hit {
        Some(e) => e,
        None => {
            return None;
        }
    };
    match lookup_phone(phones, e) {
        Some(idx) => {
            let p = &phones[idx];
            if p.phone.enabled {
                Some(PhoneMenuOpenEvent { name: crate::text::clone_name(&p.name), entity: e })
            } else {
                None
            }
        }
        None => None,
    }
}

/// Index of the first phone attached to entity `e`.
fn lookup_phone(phones: &Vec<PhoneRef>, e: u64) -> (r: Option<usize>)
    ensures
        match r {
            Some(i) => i < phones@.len() && find_phone(phones@, e) == Some(phones@[i as int]),
            None => find_phone(phones@, e) == None::<PhoneRef>,
        },
{
    let n = phones.len();
    let mut i: usize = 0;
    proof {
        assert(phones@.skip(0) =~= phones@);
    }
    while i < n
        invariant
            n == phones@.len(),
            0 <= i <= n,
            find_phone(phones@, e) == find_phone(phones@.skip(i as int), e),
        decreases n - i,
    {
        proof {
            assert(phones@.skip(i as int)[0] == phones@[i as int]);
        }
        if phones[i].entity == e {
            return Some(i);
        }
        proof {
            assert(phones@.skip(i as int).drop_first() =~= phones@.skip(i as int + 1));
        }
        i += 1;
    }
    proof {
        assert(phones@.skip(n as int) =~= Seq::<PhoneRef>::empty());
    }
    None
}

/// A fresh copy of the dialed characters.
fn clone_chars(v: &Vec<char>) -> (r: Vec<char>)
    ensures
        r@ == v@,
{
    let r = v.clone();
    proof {
        assert(r@ =~= v@);
    }
    r
}

} // verus!
