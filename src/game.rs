use vstd::prelude::*;
use crate::io::{frame_of, screen_buffer_to_vga_array, Screen, Viewport};

verus! {

/// spin's lock, held opaque: the viewport behind it is reached only through
/// a guard.
#[verifier::external_type_specification]
#[verifier::external_body]
#[verifier::reject_recursive_types(T)]
#[verifier::reject_recursive_types(R)]
pub struct ExMutex<T: ?Sized, R>(spin::mutex::Mutex<T, R>);

/// spin's default relax strategy, a type parameter of its lock.
#[verifier::external_type_specification]
#[verifier::external_body]
pub struct ExSpin(spin::relax::Spin);

/// spin's lock guard, held opaque; the lock is released when it drops.
#[verifier::external_type_specification]
#[verifier::external_body]
#[verifier::reject_recursive_types(T)]
pub struct ExMutexGuard<'a, T: 'a + ?Sized>(spin::mutex::MutexGuard<'a, T>);

/// Relies on spin::Mutex::lock: spins until the lock is free, then hands out
/// the guard of the viewport.
#[verifier::external_body]
fn lock_viewport<'a>(m: &'a spin::Mutex<Viewport>) -> spin::MutexGuard<'a, Viewport> {
    m.lock()
}

/// Relies on spin::MutexGuard's DerefMut: exclusive access to the guarded
/// viewport while the guard lives.
#[verifier::external_body]
fn guarded<'a, 'b>(guard: &'b mut spin::MutexGuard<'a, Viewport>) -> &'b mut Viewport {
    &mut **guard
}

/// Flattens the viewport's shadow buffer and blits it onto its device.
pub fn present_buffer(viewport: &mut Viewport)
    ensures
        final(viewport)@ == (Screen { device: frame_of(old(viewport)@.cells), ..old(viewport)@ }),
{
    let frame = screen_buffer_to_vga_array(*viewport.buffer());
    viewport.draw_frame(frame);
}

/// The render loop's state: a tick count and the shared viewport it draws on.
pub struct GameState<'a> {
    tick: usize,
    viewport: &'a spin::Mutex<Viewport>,
}

impl<'a> GameState<'a> {
    pub closed spec fn spec_tick(&self) -> usize {
        self.tick
    }

    pub closed spec fn spec_viewport(&self) -> &'a spin::Mutex<Viewport> {
        self.viewport
    }

    /// Starts at tick 0 on `viewport`, after resetting it under its lock.
    pub fn new(viewport: &'a spin::Mutex<Viewport>) -> (r: Self)
        ensures
            r.spec_tick() == 0,
            r.spec_viewport() == viewport,
    {
        let mut guard = lock_viewport(viewport);
        guarded(&mut guard).reset_viewport();
        GameState { viewport, tick: 0 }
    }

    /// Under the viewport's lock, blits its shadow buffer onto its device.
    pub fn draw_frame(&self) {
        let mut guard = lock_viewport(self.viewport);
        present_buffer(guarded(&mut guard));
    }

    /// The number of ticks so far.
    pub fn tick_count(&self) -> (r: usize)
        ensures
            r == self.spec_tick(),
    {
        self.tick
    }

    /// Advances the tick count by one.
    pub fn tick(&mut self)
        requires
            old(self).spec_tick() < usize::MAX,
        ensures
            final(self).spec_tick() == old(self).spec_tick() + 1,
            final(self).spec_viewport() == old(self).spec_viewport(),
    {
        self.tick = self.tick + 1;
    }
}

} // verus!
