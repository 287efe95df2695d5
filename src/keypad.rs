use vstd::prelude::*;

verus! {

/// The logical key (0x0..=0xF) that sits under a host key, given by the
/// character the host keyboard reports for it (lower case for letters).
///
/// The 4×4 block `1 2 3 4 / q w e r / a s d f / z x c v` is laid over the
/// keypad `1 2 3 C / 4 5 6 D / 7 8 9 E / A 0 B F`.
pub open spec fn key_value(c: char) -> Option<u8> {
    if c == '1' { Some(0x1u8) }
    else if c == '2' { Some(0x2u8) }
    else if c == '3' { Some(0x3u8) }
    else if c == '4' { Some(0xCu8) }
    else if c == 'q' { Some(0x4u8) }
    else if c == 'w' { Some(0x5u8) }
    else if c == 'e' { Some(0x6u8) }
    else if c == 'r' { Some(0xDu8) }
    else if c == 'a' { Some(0x7u8) }
    else if c == 's' { Some(0x8u8) }
    else if c == 'd' { Some(0x9u8) }
    else if c == 'f' { Some(0xEu8) }
    else if c == 'z' { Some(0xAu8) }
    else if c == 'x' { Some(0x0u8) }
    else if c == 'c' { Some(0xBu8) }
    else if c == 'v' { Some(0xFu8) }
    else { None }
}

/// The keypad as the interpreter sees it: at most one logical key is down.
pub struct Keypad {
    key: Option<u8>,
}

impl View for Keypad {
    type V = Option<u8>;

    closed spec fn view(&self) -> Option<u8> {
        self.key
    }
}

impl Keypad {
    /// A keypad holds a key value only if it is one of the sixteen keys.
    pub open spec fn wf(&self) -> bool {
        match self@ {
            Some(k) => k < 16,
            None => true,
        }
    }

    pub fn new() -> (r: Self)
        ensures
            r@ == None::<u8>,
    {
        Self { key: None }
    }

    /// Whether the logical key `key` is down.
    pub fn is_pressed(&self, key: u8) -> (r: bool)
        ensures
            r == (self@ == Some(key)),
    {
        match self.key {
            Some(k) => k == key,
            None => false,
        }
    }

    /// The logical key that is down, if any.
    pub fn get_key(&self) -> (r: Option<u8>)
        ensures
            r == self@,
    {
        self.key
    }

    /// Records a press of the host key `key`; a host key outside the mapped
    /// block leaves no logical key down.
    pub fn down_key(&mut self, key: char)
        ensures
            final(self)@ == key_value(key),
            final(self).wf(),
    {
        self.key = self.get_key_value(key);
    }

    /// Releases whatever key was down.
    pub fn up_key(&mut self)
        ensures
            final(self)@ == None::<u8>,
    {
        self.key = None;
    }

    /// The logical key under the host key `key`.
    pub fn get_key_value(&self, key: char) -> (r: Option<u8>)
        ensures
            r == key_value(key),
    {
        match key {
            '1' => Some(0x1),
            '2' => Some(0x2),
            '3' => Some(0x3),
            '4' => Some(0xC),
            'q' => Some(0x4),
            'w' => Some(0x5),
            'e' => Some(0x6),
            'r' => Some(0xD),
            'a' => Some(0x7),
            's' => Some(0x8),
            'd' => Some(0x9),
            'f' => Some(0xE),
            'z' => Some(0xA),
            'x' => Some(0x0),
            'c' => Some(0xB),
            'v' => Some(0xF),
            _ => None,
        }
    }
}

} // verus!
