use vstd::prelude::*;

verus! {

/// Whether `k` occurs in `v`, as executable code.
fn has_code(v: &Vec<u32>, k: u32) -> (r: bool)
    ensures
        r == v@.contains(k),
{
    let mut i: usize = 0;
    while i < v.len()
        invariant
            i <= v@.len(),
            forall|j: int| 0 <= j < i ==> v@[j] != k,
        decreases v@.len() - i,
    {
        if v[i] == k {
            return true;
        }
        i = i + 1;
    }
    false
}

/// Adds `k` to the codes held in `v`.
fn add_code(v: &mut Vec<u32>, k: u32)
    ensures
        forall|x: u32| #[trigger] final(v)@.contains(x) <==> (old(v)@.contains(x) || x == k),
{
    if !has_code(v, k) {
        v.push(k);
        proof {
            assert forall|x: u32| #[trigger] v@.contains(x) <==> (old(v)@.contains(x) || x == k) by {
                if v@.contains(x) && x != k {
                    let j = choose|j: int| 0 <= j < v@.len() && v@[j] == x;
                    assert(old(v)@[j] == x);
                }
                if old(v)@.contains(x) {
                    let j = choose|j: int| 0 <= j < old(v)@.len() && old(v)@[j] == x;
                    assert(v@[j] == x);
                }
                if x == k {
                    assert(v@[old(v)@.len() as int] == k);
                }
            }
        }
    }
}

/// Removes every occurrence of `k` from the codes held in `v`.
fn remove_code(v: &mut Vec<u32>, k: u32)
    ensures
        forall|x: u32| #[trigger] final(v)@.contains(x) <==> (old(v)@.contains(x) && x != k),
{
    let mut kept: Vec<u32> = Vec::new();
    let mut i: usize = 0;
    while i < v.len()
        invariant
            i <= v@.len(),
            forall|x: u32|
                #[trigger] kept@.contains(x) <==> (x != k && exists|j: int| 0 <= j < i && v@[j] == x),
        decreases v@.len() - i,
    {
        let x = v[i];
        if x != k {
            let ghost before = kept@;
            kept.push(x);
            proof {
                assert forall|y: u32| #[trigger] kept@.contains(y) <==> (y != k && exists|j: int|
                    0 <= j < i + 1 && v@[j] == y) by {
                    if kept@.contains(y) {
                        let m = choose|m: int| 0 <= m < kept@.len() && kept@[m] == y;
                        if m < before.len() {
                            assert(before[m] == y);
                            assert(before.contains(y));
                        } else {
                            assert(v@[i as int] == y);
                        }
                    }
                    if y != k && exists|j: int| 0 <= j < i + 1 && v@[j] == y {
                        let j = choose|j: int| 0 <= j < i + 1 && v@[j] == y;
                        if j < i {
                            assert(before.contains(y));
                            let m = choose|m: int| 0 <= m < before.len() && before[m] == y;
                            assert(kept@[m] == y);
                        } else {
                            assert(kept@[before.len() as int] == y);
                        }
                    }
                }
            }
        } else {
            proof {
                assert forall|y: u32| #[trigger] kept@.contains(y) <==> (y != k && exists|j: int|
                    0 <= j < i + 1 && v@[j] == y) by {
                    if y != k && exists|j: int| 0 <= j < i + 1 && v@[j] == y {
                        let j = choose|j: int| 0 <= j < i + 1 && v@[j] == y;
                        assert(j < i);
                    }
                }
            }
        }
        i = i + 1;
    }
    std::mem::swap(v, &mut kept);
    proof {
        assert forall|x: u32| #[trigger] v@.contains(x) <==> (old(v)@.contains(x) && x != k) by {
            if old(v)@.contains(x) && x != k {
                let j = choose|j: int| 0 <= j < old(v)@.len() && old(v)@[j] == x;
                assert(kept@[j] == x);
            }
        }
    }
}

/// Which keys (or mouse buttons) are held, went down this frame, or came up
/// this frame. Codes are assigned by the host.
#[derive(Debug)]
pub struct KeyStates {
    _down: Vec<u32>,
    _pressed: Vec<u32>,
    _released: Vec<u32>,
}

impl KeyStates {
    /// Codes held down.
    pub closed spec fn down(&self) -> Set<u32> {
        Set::new(|x: u32| self._down@.contains(x))
    }

    /// Codes that went down this frame.
    pub closed spec fn pressed(&self) -> Set<u32> {
        Set::new(|x: u32| self._pressed@.contains(x))
    }

    /// Codes that came up this frame.
    pub closed spec fn released(&self) -> Set<u32> {
        Set::new(|x: u32| self._released@.contains(x))
    }

    /// Nothing held, pressed or released.
    pub fn New() -> (r: Self)
        ensures
            r.down() == Set::<u32>::empty(),
            r.pressed() == Set::<u32>::empty(),
            r.released() == Set::<u32>::empty(),
    {
        let r = KeyStates { _down: Vec::new(), _pressed: Vec::new(), _released: Vec::new() };
        proof {
            assert(r.down() =~= Set::<u32>::empty());
            assert(r.pressed() =~= Set::<u32>::empty());
            assert(r.released() =~= Set::<u32>::empty());
        }
        r
    }

    /// `code` went down: it is held and pressed, and no longer released.
    pub fn Press(&mut self, code: u32)
        ensures
            final(self).down() == old(self).down().insert(code),
            final(self).pressed() == old(self).pressed().insert(code),
            final(self).released() == old(self).released().remove(code),
    {
        add_code(&mut self._down, code);
        add_code(&mut self._pressed, code);
        remove_code(&mut self._released, code);
        proof {
            assert(self.down() =~= old(self).down().insert(code));
            assert(self.pressed() =~= old(self).pressed().insert(code));
            assert(self.released() =~= old(self).released().remove(code));
        }
    }

    /// `code` came up: it is released, and no longer held or pressed.
    pub fn Release(&mut self, code: u32)
        ensures
            final(self).down() == old(self).down().remove(code),
            final(self).pressed() == old(self).pressed().remove(code),
            final(self).released() == old(self).released().insert(code),
    {
        remove_code(&mut self._down, code);
        remove_code(&mut self._pressed, code);
        add_code(&mut self._released, code);
        proof {
            assert(self.down() =~= old(self).down().remove(code));
            assert(self.pressed() =~= old(self).pressed().remove(code));
            assert(self.released() =~= old(self).released().insert(code));
        }
    }

    /// Starts a new frame: nothing is pressed or released any more; held
    /// codes stay held.
    pub fn ResetPressedAndReleased(&mut self)
        ensures
            final(self).down() == old(self).down(),
            final(self).pressed() == Set::<u32>::empty(),
            final(self).released() == Set::<u32>::empty(),
    {
        self._pressed = Vec::new();
        self._released = Vec::new();
        proof {
            assert(self.down() =~= old(self).down());
            assert(self.pressed() =~= Set::<u32>::empty());
            assert(self.released() =~= Set::<u32>::empty());
        }
    }

    pub fn IsDown(&self, code: u32) -> (r: bool)
        ensures
            r == self.down().contains(code),
    {
        has_code(&self._down, code)
    }

    pub fn IsPressed(&self, code: u32) -> (r: bool)
        ensures
            r == self.pressed().contains(code),
    {
        has_code(&self._pressed, code)
    }

    pub fn IsReleased(&self, code: u32) -> (r: bool)
        ensures
            r == self.released().contains(code),
    {
        has_code(&self._released, code)
    }
}

/// The input of one frame: keyboard keys, mouse buttons, and the mouse
/// position in window pixels from the top left.
#[derive(Debug)]
pub struct InputState {
    pub Keys: KeyStates,
    pub MouseButtons: KeyStates,
    pub MouseX: i32,
    pub MouseY: i32,
}

impl InputState {
    pub fn New() -> (r: Self)
        ensures
            r.Keys.down() == Set::<u32>::empty(),
            r.Keys.pressed() == Set::<u32>::empty(),
            r.Keys.released() == Set::<u32>::empty(),
            r.MouseButtons.down() == Set::<u32>::empty(),
            r.MouseButtons.pressed() == Set::<u32>::empty(),
            r.MouseButtons.released() == Set::<u32>::empty(),
            r.MouseX == 0,
            r.MouseY == 0,
    {
        InputState { Keys: KeyStates::New(), MouseButtons: KeyStates::New(), MouseX: 0, MouseY: 0 }
    }
}

} // verus!
