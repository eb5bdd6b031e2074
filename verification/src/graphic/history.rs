//! The spectra a graphic generator draws from, most recent first, and the
//! recycling of the buffers that fall off the end.

use vstd::prelude::*;

use std::collections::VecDeque;

verus! {

/// The spectra a generator draws, most recent first.
#[derive(Debug)]
pub struct SpectrumHistory<S> {
    spectra: VecDeque<S>,
}

impl<S> View for SpectrumHistory<S> {
    type V = Seq<S>;

    closed spec fn view(&self) -> Seq<S> {
        self.spectra@
    }
}

/// The history after `spectrum` arrives, for a generator that draws
/// `max_len` spectra: cut to `max_len`, then the spectrum in front if it is
/// on the current grid.
pub open spec fn updated_history<S>(history: Seq<S>, spectrum: S, max_len: nat, same_grid: bool) -> Seq<S> {
    let kept = if history.len() <= max_len {
        history
    } else {
        history.subrange(0, max_len as int)
    };
    let grown = if same_grid {
        seq![spectrum] + kept
    } else {
        kept
    };
    if grown.len() > max_len {
        grown.subrange(0, grown.len() - 1)
    } else {
        grown
    }
}

/// The size of the surface a generator last drew on.
#[derive(Debug, Clone, Copy, PartialEq, Eq, Structural)]
pub struct SurfaceSize {
    pub width: i32,
    pub height: i32,
}

impl SurfaceSize {
    /// The size before any surface is seen: nothing by nothing.
    pub fn new() -> (size: SurfaceSize)
        ensures
            size == (SurfaceSize { width: 0, height: 0 }),
    {
        SurfaceSize { width: 0, height: 0 }
    }

    /// Takes in the size of the surface about to be drawn on, and says
    /// whether it differs from the last one, which is when a generator
    /// rebuilds what it derives from the size.
    pub fn update(&mut self, width: i32, height: i32) -> (changed: bool)
        ensures
            changed == (old(self).width != width || old(self).height != height),
            *final(self) == (SurfaceSize { width, height }),
    {
        if width != self.width || height != self.height {
            self.width = width;
            self.height = height;
            true
        } else {
            false
        }
    }
}

/// A history never holds more spectra than its generator draws.
pub proof fn law_history_is_bounded<S>(history: Seq<S>, spectrum: S, max_len: nat, same_grid: bool)
    ensures
        updated_history(history, spectrum, max_len, same_grid).len() <= max_len,
        same_grid && max_len > 0 ==> updated_history(history, spectrum, max_len, same_grid)[0]
            == spectrum,
{
}

/// The history after a spectrum arrives is the newest spectra, most recent
/// first, cut to `max_len`: the spectrum itself in front when it is on the
/// current grid, and otherwise the history as it was, cut to `max_len`, so a
/// spectrum from a grid that is gone never enters it.
pub proof fn law_history_keeps_the_newest_on_the_grid<S>(
    history: Seq<S>,
    spectrum: S,
    max_len: nat,
    same_grid: bool,
)
    ensures
        ({
            let arrived = if same_grid {
                seq![spectrum] + history
            } else {
                history
            };
            updated_history(history, spectrum, max_len, same_grid) == arrived.subrange(
                0,
                if arrived.len() <= max_len {
                    arrived.len() as int
                } else {
                    max_len as int
                },
            )
        }),
        !same_grid ==> updated_history(history, spectrum, max_len, same_grid) == history.subrange(
            0,
            if history.len() <= max_len {
                history.len() as int
            } else {
                max_len as int
            },
        ),
        !same_grid ==> forall|i: int|
            0 <= i < updated_history(history, spectrum, max_len, same_grid).len() ==> #[trigger] updated_history(
                history,
                spectrum,
                max_len,
                same_grid,
            )[i] == history[i],
{
    let result = updated_history(history, spectrum, max_len, same_grid);
    let arrived = if same_grid {
        seq![spectrum] + history
    } else {
        history
    };
    let end = if arrived.len() <= max_len {
        arrived.len() as int
    } else {
        max_len as int
    };
    assert(result =~= arrived.subrange(0, end));
}

impl<S> SpectrumHistory<S> {
    /// An empty history.
    pub fn new() -> (history: Self)
        ensures
            history@ == Seq::<S>::empty(),
    {
        SpectrumHistory { spectra: VecDeque::new() }
    }

    /// The spectra, most recent first.
    pub fn spectra(&self) -> (spectra: &VecDeque<S>)
        ensures
            spectra@ == self@,
    {
        &self.spectra
    }

    /// Forgets every spectrum: they were drawn on a grid that is gone.
    pub fn clear(&mut self)
        ensures
            final(self)@ == Seq::<S>::empty(),
    {
        self.spectra.clear();
    }

    /// Takes in the newest `spectrum` for a generator that draws `max_len`
    /// spectra, and hands back the buffer to fill next.
    ///
    /// A spectrum built on a grid other than the current one is not kept: it
    /// is `same_grid` that says whether it was. The spectrum that falls off
    /// the end is handed back for its buffer to be reused; `None` means none
    /// did, and a fresh buffer is needed.
    pub fn update_spectrum(&mut self, spectrum: S, max_len: usize, same_grid: bool) -> (recycled:
        Option<S>)
        ensures
            final(self)@ == updated_history(old(self)@, spectrum, max_len as nat, same_grid),
            ({
                let kept = if old(self)@.len() <= max_len {
                    old(self)@
                } else {
                    old(self)@.subrange(0, max_len as int)
                };
                let grown = if same_grid {
                    seq![spectrum] + kept
                } else {
                    kept
                };
                if grown.len() > max_len {
                    recycled == Some(grown.last())
                } else {
                    recycled is None
                }
            }),
    {
        self.spectra.truncate(max_len);
        if same_grid {
            self.spectra.push_front(spectrum);
        }
        if self.spectra.len() > max_len {
            self.spectra.pop_back()
        } else {
            None
        }
    }
}

} // verus!
