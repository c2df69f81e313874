use vstd::prelude::*;

verus! {

/// The slowest speed level.
pub const MIN_SPEED: u8 = 1;

/// The fastest speed level; speeds are scaled by `level / MAX_SPEED`.
pub const MAX_SPEED: u8 = 5;

/// The speed level an operator starts at.
pub const DEFAULT_SPEED: u8 = 3;

/// The scale, in percent, applied to the left wheel.
pub const LEFT_SCALE_PERCENT: i32 = 100;

/// The scale, in percent, applied to the right wheel.
pub const RIGHT_SCALE_PERCENT: i32 = 50;

/// The code that the key slot holds when no key is waiting.
pub const NO_KEY: u8 = 0;

/// Integer division that truncates toward zero, as Rust's `/` does.
pub open spec fn div_trunc(a: int, d: int) -> int {
    if a >= 0 {
        a / d
    } else {
        -((-a) / d)
    }
}

/// One wheel's command: `base * side_percent / 100 * speed / MAX_SPEED`, truncating at each
/// division, in that order.
pub open spec fn scaled(base: int, side_percent: int, speed: int) -> int {
    div_trunc(div_trunc(base * side_percent, 100) * speed, MAX_SPEED as int)
}

/// Scales a base wheel velocity by a side scale (in percent) and a speed level.
pub fn scale(base: i32, side_percent: i32, speed: i32) -> (r: i32)
    requires
        i32::MIN <= base * side_percent <= i32::MAX,
        i32::MIN <= div_trunc(base * side_percent, 100) * speed <= i32::MAX,
    ensures
        r == scaled(base as int, side_percent as int, speed as int),
{
    let a = base * side_percent;
    let b = a / 100;
    assert(b == div_trunc(a as int, 100));
    let c = b * speed;
    let r = c / (MAX_SPEED as i32);
    assert(r == div_trunc(c as int, MAX_SPEED as int));
    r
}

/// The unscaled (left, right) velocities that a key asks for: drive keys move the robot,
/// every other key (the two speed keys among them) asks for rest.
pub open spec fn base_pair_spec(key: u8) -> (int, int) {
    if key == 'w' as u8 {
        (100, 100)
    } else if key == 's' as u8 {
        (-100, -100)
    } else if key == 'a' as u8 {
        (-100, 100)
    } else if key == 'd' as u8 {
        (100, -100)
    } else if key == 'q' as u8 {
        (50, 100)
    } else if key == 'e' as u8 {
        (100, 50)
    } else {
        (0, 0)
    }
}

/// The unscaled (left, right) velocities for a key.
pub fn base_pair(key: u8) -> (r: (i32, i32))
    ensures
        r.0 as int == base_pair_spec(key).0,
        r.1 as int == base_pair_spec(key).1,
{
    if key == 'w' as u8 {
        (100, 100)
    } else if key == 's' as u8 {
        (-100, -100)
    } else if key == 'a' as u8 {
        (-100, 100)
    } else if key == 'd' as u8 {
        (100, -100)
    } else if key == 'q' as u8 {
        (50, 100)
    } else if key == 'e' as u8 {
        (100, 50)
    } else {
        (0, 0)
    }
}

/// The speed level after a key: `o` raises it by one up to `MAX_SPEED`, `l` lowers it by one
/// down to `MIN_SPEED`, any other key keeps it.
pub open spec fn speed_after_key(speed: int, key: u8) -> int {
    if key == 'o' as u8 {
        if speed + 1 < MAX_SPEED { speed + 1 } else { MAX_SPEED as int }
    } else if key == 'l' as u8 {
        if speed - 1 > MIN_SPEED { speed - 1 } else { MIN_SPEED as int }
    } else {
        speed
    }
}

/// The speed level after a run of keys, the first key first.
pub open spec fn speed_after_keys(speed: int, keys: Seq<u8>) -> int
    decreases keys.len(),
{
    if keys.len() == 0 {
        speed
    } else {
        speed_after_keys(speed_after_key(speed, keys[0]), keys.subrange(1, keys.len() as int))
    }
}

/// However many times the speed keys are pressed, in whatever order, the speed level stays
/// within `MIN_SPEED..=MAX_SPEED`.
pub proof fn lemma_speed_stays_in_range(speed: int, keys: Seq<u8>)
    requires
        MIN_SPEED <= speed <= MAX_SPEED,
    ensures
        MIN_SPEED <= speed_after_keys(speed, keys) <= MAX_SPEED,
    decreases keys.len(),
{
    if keys.len() > 0 {
        lemma_speed_stays_in_range(
            speed_after_key(speed, keys[0]),
            keys.subrange(1, keys.len() as int),
        );
    }
}

/// The operator's speed multiplier, held within `MIN_SPEED..=MAX_SPEED`.
#[derive(Clone, Copy, Debug, PartialEq, Eq, Structural)]
pub struct SpeedLevel {
    level: u8,
}

impl View for SpeedLevel {
    type V = int;

    closed spec fn view(&self) -> int {
        self.level as int
    }
}

impl SpeedLevel {
    /// The level lies within `MIN_SPEED..=MAX_SPEED`.
    pub open spec fn wf(&self) -> bool {
        MIN_SPEED <= self@ <= MAX_SPEED
    }

    /// The starting level, `DEFAULT_SPEED`.
    pub fn new() -> (r: SpeedLevel)
        ensures
            r@ == DEFAULT_SPEED,
            r.wf(),
    {
        SpeedLevel { level: DEFAULT_SPEED }
    }

    /// The current level.
    pub fn value(&self) -> (r: u8)
        ensures
            r as int == self@,
    {
        self.level
    }

    /// Raises the level by one, no higher than `MAX_SPEED`.
    pub fn increase(&mut self)
        requires
            old(self).wf(),
        ensures
            final(self).wf(),
            final(self)@ == speed_after_key(old(self)@, 'o' as u8),
    {
        if self.level < MAX_SPEED {
            self.level = self.level + 1;
        }
    }

    /// Lowers the level by one, no lower than `MIN_SPEED`.
    pub fn decrease(&mut self)
        requires
            old(self).wf(),
        ensures
            final(self).wf(),
            final(self)@ == speed_after_key(old(self)@, 'l' as u8),
    {
        if self.level > MIN_SPEED {
            self.level = self.level - 1;
        }
    }

    /// Applies a key's effect on the level.
    pub fn apply_key(&mut self, key: u8)
        requires
            old(self).wf(),
        ensures
            final(self).wf(),
            final(self)@ == speed_after_key(old(self)@, key),
    {
        if key == 'o' as u8 {
            self.increase();
        } else if key == 'l' as u8 {
            self.decrease();
        }
    }
}

/// A (left, right) pair of signed wheel velocities; negative runs the wheel in reverse.
#[derive(Clone, Copy, Debug, PartialEq, Eq, Structural)]
pub struct MotionCommand {
    pub left: i32,
    pub right: i32,
}

/// The command sent for a key at a speed level: each side of the key's base pair scaled by
/// that side's percentage and the level.
pub open spec fn command_for(speed: int, key: u8) -> (int, int) {
    (
        scaled(base_pair_spec(key).0, LEFT_SCALE_PERCENT as int, speed),
        scaled(base_pair_spec(key).1, RIGHT_SCALE_PERCENT as int, speed),
    )
}

proof fn lemma_scaled_fits(base: int, side_percent: int, speed: int)
    requires
        -100 <= base <= 100,
        0 <= side_percent <= 100,
        MIN_SPEED <= speed <= MAX_SPEED,
    ensures
        -10000 <= base * side_percent <= 10000,
        -500 <= div_trunc(base * side_percent, 100) * speed <= 500,
{
    assert(-10000 <= base * side_percent <= 10000) by (nonlinear_arith)
        requires
            -100 <= base <= 100,
            0 <= side_percent <= 100,
    ;
    let q = div_trunc(base * side_percent, 100);
    assert(-100 <= q <= 100);
    assert(-500 <= q * speed <= 500) by (nonlinear_arith)
        requires
            -100 <= q <= 100,
            1 <= speed <= 5,
    ;
}

/// The operator side's encoder: turns the latest key into one motion command per tick.
#[derive(Clone, Copy, Debug)]
pub struct Encoder {
    pub speed: SpeedLevel,
}

impl Encoder {
    /// The encoder's speed level is well formed.
    pub open spec fn wf(&self) -> bool {
        self.speed.wf()
    }

    /// An encoder at the starting speed level.
    pub fn new() -> (r: Encoder)
        ensures
            r.wf(),
            r.speed@ == DEFAULT_SPEED,
    {
        Encoder { speed: SpeedLevel::new() }
    }

    /// One tick for `key`: the speed keys change the level first, then the key's base pair is
    /// scaled at the new level.
    pub fn tick(&mut self, key: u8) -> (r: MotionCommand)
        requires
            old(self).wf(),
        ensures
            final(self).wf(),
            final(self).speed@ == speed_after_key(old(self).speed@, key),
            (r.left as int, r.right as int) == command_for(final(self).speed@, key),
    {
        self.speed.apply_key(key);
        let (l, r) = base_pair(key);
        let level = self.speed.value() as i32;
        proof {
            lemma_scaled_fits(l as int, LEFT_SCALE_PERCENT as int, level as int);
            lemma_scaled_fits(r as int, RIGHT_SCALE_PERCENT as int, level as int);
        }
        MotionCommand {
            left: scale(l, LEFT_SCALE_PERCENT, level),
            right: scale(r, RIGHT_SCALE_PERCENT, level),
        }
    }

    /// One tick on the key waiting in `slot`, which it takes and clears.
    pub fn tick_from(&mut self, slot: &mut KeySlot) -> (r: MotionCommand)
        requires
            old(self).wf(),
        ensures
            final(self).wf(),
            final(slot)@ == NO_KEY,
            final(self).speed@ == speed_after_key(old(self).speed@, old(slot)@),
            (r.left as int, r.right as int) == command_for(final(self).speed@, old(slot)@),
    {
        let key = slot.take();
        self.tick(key)
    }
}

/// A single-slot mailbox for the latest key: a new key overwrites an unread one, and reading
/// takes the key and clears the slot.
#[derive(Clone, Copy, Debug)]
pub struct KeySlot {
    key: u8,
}

impl View for KeySlot {
    type V = u8;

    closed spec fn view(&self) -> u8 {
        self.key
    }
}

impl KeySlot {
    /// An empty slot.
    pub fn new() -> (r: KeySlot)
        ensures
            r@ == NO_KEY,
    {
        KeySlot { key: NO_KEY }
    }

    /// Puts `key` in the slot, replacing any key not yet taken.
    pub fn store(&mut self, key: u8)
        ensures
            final(self)@ == key,
    {
        self.key = key;
    }

    /// Takes the waiting key, `NO_KEY` if there is none, and leaves the slot empty.
    pub fn take(&mut self) -> (r: u8)
        ensures
            r == old(self)@,
            final(self)@ == NO_KEY,
    {
        let key = self.key;
        self.key = NO_KEY;
        key
    }
}

/// A tick that finds no key waiting sends the neutral command and keeps the speed level.
pub proof fn lemma_idle_tick_is_neutral(speed: int)
    requires
        MIN_SPEED <= speed <= MAX_SPEED,
    ensures
        speed_after_key(speed, NO_KEY) == speed,
        command_for(speed, NO_KEY) == (0int, 0int),
{
}

} // verus!
