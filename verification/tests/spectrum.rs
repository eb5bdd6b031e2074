use melody_visualizer::spectrum::generators::audio::{dft_window_size, max_planned_samples_per_octave};
use melody_visualizer::spectrum::slot::{BufferSlot, SlotError};
use melody_visualizer::config::TransformEntry;
use melody_visualizer::spectrum::{SpectrumTransform, TransformChain, TransformId};
use std::sync::{Arc, Mutex};

#[test]
fn the_window_resolves_the_grid_in_the_octave_below_nyquist() {
    for samples_per_octave in [12, 60, 180, 360, 720] {
        let window = dft_window_size(samples_per_octave);
        assert!(
            window.is_power_of_two(),
            "{samples_per_octave} bins / octave planned a {window}-sample window",
        );

        // Both steps as a fraction of the sample rate, which cancels: the
        // DFT's is 1 / window, and the grid's at the Nyquist frequency's
        // lower octave is that octave's bottom, a quarter of the rate,
        // times the ratio between two grid bins.
        let dft_step = 1.0 / window as f64;
        let grid_step = 0.25 * (2f64.powf(1.0 / samples_per_octave as f64) - 1.0);
        assert!(
            dft_step <= grid_step,
            "a {window}-sample window steps by {dft_step} of the sample rate, \
             past the {grid_step} between two of {samples_per_octave} bins / octave",
        );
        assert!(
            dft_step * 2.0 > grid_step,
            "a {window}-sample window is twice what \
             {samples_per_octave} bins / octave asks for",
        );
    }
}

#[test]
fn the_planned_windows_for_known_grids() {
    // 4 / (2^(1/k) - 1) samples, rounded up to a power of two.
    assert_eq!(dft_window_size(0), 1);
    assert_eq!(dft_window_size(1), 4);
    assert_eq!(dft_window_size(2), 16);
    assert_eq!(dft_window_size(12), 128);
    assert_eq!(dft_window_size(180), 2048);
    assert_eq!(dft_window_size(720), 8192);
}

/// What a [`Recorder`] was asked to do.
#[derive(Debug, Clone, Copy, PartialEq, Eq)]
enum Call {
    Transform(TransformId),
    SetParams(TransformId),
}

/// A transform that records its calls into a log shared with the test, and
/// appends its id to the spectrum it is handed.
#[derive(Debug)]
struct Recorder {
    id: TransformId,
    log: Arc<Mutex<Vec<Call>>>,
}

impl SpectrumTransform<u32> for Recorder {
    type Spectrum = Vec<u64>;

    fn transform(&mut self, mut spectrum: Vec<u64>) -> Vec<u64> {
        self.log.lock().unwrap().push(Call::Transform(self.id));
        spectrum.push(self.id.0);
        spectrum
    }

    fn set_params(&mut self, _params: &Arc<u32>) {
        self.log.lock().unwrap().push(Call::SetParams(self.id));
    }
}

/// A chain of recorders with the given ids, and the log they share.
fn recording_chain(ids: &[u64]) -> (TransformChain<Recorder, u32>, Arc<Mutex<Vec<Call>>>) {
    let log = Arc::new(Mutex::new(Vec::new()));
    let chain = TransformChain::from_entries(
        ids.iter()
            .map(|&id| {
                let transform = Recorder {
                    id: TransformId(id),
                    log: log.clone(),
                };
                (TransformId(id), transform)
            })
            .collect(),
    );
    (chain, log)
}

fn test_params() -> Arc<u32> {
    Arc::new(8)
}

#[test]
fn transforms_run_in_chain_order() {
    let (mut chain, log) = recording_chain(&[7, 3, 5]);

    let spectrum = chain.apply(Vec::new());

    assert_eq!(
        *log.lock().unwrap(),
        [
            Call::Transform(TransformId(7)),
            Call::Transform(TransformId(3)),
            Call::Transform(TransformId(5)),
        ],
        "position in the chain decides the order, not the id",
    );
    assert_eq!(spectrum, [7, 3, 5]);
}

#[test]
fn set_params_reaches_every_transform_once_per_grid() {
    let (mut chain, log) = recording_chain(&[0, 1]);
    let params = test_params();

    chain.set_params(&params);
    // The same grid, handed over again, changes nothing.
    chain.set_params(&params.clone());
    chain.set_params(&params);

    assert_eq!(
        *log.lock().unwrap(),
        [
            Call::SetParams(TransformId(0)),
            Call::SetParams(TransformId(1))
        ],
    );

    // A different grid is a different `Arc`, and reaches them again.
    chain.set_params(&test_params());
    assert_eq!(log.lock().unwrap().len(), 4);
}

#[test]
fn a_transform_added_to_a_chain_is_handed_the_grid() {
    let (mut chain, log) = recording_chain(&[0]);
    chain.set_params(&test_params());
    log.lock().unwrap().clear();

    chain.insert(
        1,
        TransformId(1),
        Recorder {
            id: TransformId(1),
            log: log.clone(),
        },
    );

    assert_eq!(
        *log.lock().unwrap(),
        [Call::SetParams(TransformId(1))],
        "a transform joining an established chain needs the current grid",
    );
}

#[test]
fn a_transform_added_to_a_chain_without_a_grid_is_handed_nothing() {
    let (mut chain, log) = recording_chain(&[0]);

    chain.insert(
        0,
        TransformId(1),
        Recorder {
            id: TransformId(1),
            log: log.clone(),
        },
    );

    assert!(log.lock().unwrap().is_empty());
    assert_eq!(chain.ids(), [1, 0].map(TransformId));
}

#[test]
fn insert_remove_and_reorder_maintain_order() {
    let (mut chain, _log) = recording_chain(&[0, 1, 2]);

    chain.insert(
        1,
        TransformId(3),
        Recorder {
            id: TransformId(3),
            log: Arc::new(Mutex::new(Vec::new())),
        },
    );
    assert_eq!(chain.ids(), [0, 3, 1, 2].map(TransformId));

    chain.reorder(0, 2);
    assert_eq!(chain.ids(), [3, 1, 0, 2].map(TransformId));

    assert!(chain.remove(TransformId(1)).is_some());
    assert_eq!(chain.ids(), [3, 0, 2].map(TransformId));

    assert!(
        chain.remove(TransformId(1)).is_none(),
        "removing an id the chain does not hold leaves it alone",
    );
    assert_eq!(chain.len(), 3);
}

#[test]
fn get_mut_addresses_a_transform_by_id() {
    let (mut chain, log) = recording_chain(&[4, 9]);

    chain
        .get_mut(TransformId(9))
        .expect("the chain holds id 9")
        .transform(Vec::new());

    assert_eq!(*log.lock().unwrap(), [Call::Transform(TransformId(9))]);
    assert!(chain.get_mut(TransformId(1)).is_none());
}

#[test]
fn bypassed_stages_are_skipped() {
    let (mut chain, log) = recording_chain(&[0, 1, 2]);
    chain.set_enabled(TransformId(1), false);

    assert_eq!(chain.apply(vec![9]), [9, 0, 2]);
    assert_eq!(
        *log.lock().unwrap(),
        [Call::Transform(TransformId(0)), Call::Transform(TransformId(2))],
    );
}

#[test]
fn a_chain_bypassed_throughout_is_the_identity() {
    let (mut chain, log) = recording_chain(&[0, 1]);
    chain.set_enabled(TransformId(0), false);
    chain.set_enabled(TransformId(1), false);

    assert_eq!(chain.apply(vec![4, 2]), [4, 2]);
    assert!(log.lock().unwrap().is_empty());

    chain.set_enabled(TransformId(1), true);
    assert_eq!(chain.apply(vec![4, 2]), [4, 2, 1]);
}

#[test]
fn bypassed_stages_are_still_handed_the_grid() {
    let (mut chain, log) = recording_chain(&[0, 1]);
    chain.set_enabled(TransformId(0), false);
    chain.set_enabled(TransformId(7), false);

    chain.set_params(&test_params());

    assert_eq!(
        *log.lock().unwrap(),
        [
            Call::SetParams(TransformId(0)),
            Call::SetParams(TransformId(1))
        ],
    );
}

#[test]
fn a_chain_built_from_config_keeps_order_and_bypass_switches() {
    let log = Arc::new(Mutex::new(Vec::new()));
    let entries = vec![
        TransformEntry { id: TransformId(4), config: 40, enabled: true },
        TransformEntry { id: TransformId(2), config: 20, enabled: false },
        TransformEntry { id: TransformId(6), config: 60, enabled: true },
    ];

    let mut chain: TransformChain<Recorder, u32> =
        TransformChain::from_config(entries, |config: u64| Recorder {
            id: TransformId(config / 10),
            log: log.clone(),
        });

    assert_eq!(chain.ids(), [4, 2, 6].map(TransformId));
    assert_eq!(chain.apply(Vec::new()), [4, 6]);
}

#[test]
fn remove_takes_the_first_of_a_repeated_id_and_returns_its_transform() {
    let (mut chain, _log) = recording_chain(&[5, 6, 5]);
    chain.get_mut_at(2).id = TransformId(50);

    assert_eq!(chain.index_of(TransformId(5)), Some(0));
    let removed = chain.remove(TransformId(5)).expect("the chain holds id 5");
    assert_eq!(removed.id, TransformId(5));
    assert_eq!(chain.ids(), [6, 5].map(TransformId));
    assert_eq!(chain.index_of(TransformId(5)), Some(1));
    assert_eq!(chain.get(TransformId(5)).map(|recorder| recorder.id), Some(TransformId(50)));
}

#[test]
fn an_empty_chain_reports_itself_empty() {
    let mut chain: TransformChain<Recorder, u32> = TransformChain::default();
    assert!(chain.is_empty());
    assert_eq!(chain.len(), 0);
    assert_eq!(chain.apply(vec![3]), [3]);
    chain.insert(
        0,
        TransformId(1),
        Recorder {
            id: TransformId(1),
            log: Arc::new(Mutex::new(Vec::new())),
        },
    );
    assert!(!chain.is_empty());
    assert_eq!(chain.get_mut_at(0).id, TransformId(1));
}

#[test]
fn a_buffer_slot_holds_one_buffer_between_ticks() {
    let mut slot = BufferSlot::new();
    assert_eq!(slot.take_for_tick(), Err(SlotError::NoBuffer));
    assert_eq!(slot.receive(1), Ok(()));
    assert_eq!(
        slot.receive(2),
        Err(SlotError::ReceivedUnexpectedBuffer),
        "a second buffer is refused and the first kept",
    );
    assert_eq!(slot.take_for_tick(), Ok(1));
    assert_eq!(slot.take_for_tick(), Err(SlotError::NoBuffer));
}

/// Raises every value to a power: the identity only at exponent one.
#[derive(Debug)]
struct Power(f64);

impl SpectrumTransform<Vec<f64>> for Power {
    type Spectrum = Vec<f64>;

    fn transform(&mut self, spectrum: Vec<f64>) -> Vec<f64> {
        spectrum.into_iter().map(|value| value.powf(self.0)).collect()
    }
}

/// Adds to each value the one an octave of bins above it, on the grid it
/// was handed: a transform that needs the grid to do anything.
#[derive(Debug)]
struct OctaveUp {
    bins_per_octave: usize,
}

impl SpectrumTransform<Vec<f64>> for OctaveUp {
    type Spectrum = Vec<f64>;

    fn transform(&mut self, spectrum: Vec<f64>) -> Vec<f64> {
        (0..spectrum.len())
            .map(|index| spectrum[index] + spectrum.get(index + self.bins_per_octave).unwrap_or(&0.0))
            .collect()
    }

    fn set_params(&mut self, params: &Arc<Vec<f64>>) {
        self.bins_per_octave = params.len() / 10;
    }
}

#[test]
fn power_map_bypassed_it_is_the_identity() {
    let id = TransformId(0);
    let mut chain: TransformChain<Power, Vec<f64>> = TransformChain::default();
    chain.insert(0, id, Power(2.0));
    chain.set_enabled(id, false);

    let output = chain.apply(vec![0.0, 0.5, 1.0, 3.0]);

    assert_eq!(output, [0.0, 0.5, 1.0, 3.0]);
}

#[test]
fn harmonic_summation_bypassed_it_is_the_identity() {
    let params = Arc::new(vec![0.0; 1196]);
    let mut chain: TransformChain<OctaveUp, Vec<f64>> = TransformChain::default();
    chain.insert(0, TransformId(0), OctaveUp { bins_per_octave: 0 });
    chain.set_params(&params);
    chain.set_enabled(TransformId(0), false);
    let values = (0..params.len())
        .map(|index| (index % 7) as f64)
        .collect::<Vec<_>>();

    assert_eq!(chain.apply(values.clone()), values);

    chain.set_enabled(TransformId(0), true);
    assert_ne!(chain.apply(values.clone()), values, "running, it changes the spectrum");
}

#[test]
fn the_planned_grids_reach_an_eighth_of_the_largest_window() {
    assert_eq!(max_planned_samples_per_octave() * 8, 1usize << (usize::BITS - 1));
}
