use vstd::prelude::*;

verus! {

/// The capability interface an external rendering/input backend offers the
/// machine's driver: clearing the screen, reading keys, and reading or
/// writing single pixels. The core itself draws into its own framebuffer;
/// a backend implements this trait to mirror that framebuffer somewhere
/// visible.
pub trait IOInterface {
    fn clear_screen(&mut self);

    fn is_key_pressed(&self, key: u8) -> bool;

    fn set_pixel(&mut self, x: u32, y: u32, white: bool);

    fn pixel(&self, x: u32, y: u32) -> bool;
}

/// A backend that renders nowhere and reports no key as pressed: the test
/// double for driving the machine without a screen.
pub struct HeadlessInterface {}

impl IOInterface for HeadlessInterface {
    fn clear_screen(&mut self) {
    }

    fn is_key_pressed(&self, _key: u8) -> bool {
        false
    }

    fn set_pixel(&mut self, _x: u32, _y: u32, _white: bool) {
    }

    fn pixel(&self, _x: u32, _y: u32) -> bool {
        false
    }
}

} // verus!
