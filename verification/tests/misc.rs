use melody_visualizer::audio::source::{PortName, SourceType};
use melody_visualizer::pane::{
    harmonics_text, rate_text, source_name, spectrum_caption_text, stages_to_close, window_text,
    StageId,
};
use melody_visualizer::config::{
    set_transform_enabled, spectrum_transform, spectrum_transform_entry, spectrum_transform_mut,
    ConfigError,
    SpectrumGeneratorConfig, TransformEntry,
};
use melody_visualizer::keyboard::{is_black_key, key_at, key_name, KEY_COUNT};
use melody_visualizer::note::PitchClass;
use melody_visualizer::pubsub::{notify, SubscriptionHandle};
use melody_visualizer::spectrum::TransformId;
use std::cell::RefCell;
use std::rc::{Rc, Weak};

fn entries() -> Vec<TransformEntry<&'static str>> {
    vec![
        TransformEntry { id: TransformId(0), config: "diffuser", enabled: true },
        TransformEntry { id: TransformId(1), config: "normalizer", enabled: true },
    ]
}

#[test]
fn a_transform_is_looked_up_by_id() {
    let entries = entries();
    assert_eq!(spectrum_transform(&entries, TransformId(1)), Ok(&"normalizer"));
    assert_eq!(
        spectrum_transform_entry(&entries, TransformId(0)).map(|entry| entry.config),
        Ok("diffuser")
    );
    assert_eq!(
        spectrum_transform(&entries, TransformId(7)),
        Err(ConfigError::MissingTransform { id: TransformId(7) })
    );
}

#[test]
fn a_transform_is_reconfigured_in_place_by_id() {
    let mut entries = entries();
    *spectrum_transform_mut(&mut entries, TransformId(1)).unwrap() = "limiter";
    assert_eq!(entries[1].config, "limiter");
    assert_eq!(entries[1].id, TransformId(1));
    assert!(entries[1].enabled);
    assert_eq!(entries[0].config, "diffuser");
    assert_eq!(
        spectrum_transform_mut(&mut entries, TransformId(3)).map(|config| *config),
        Err(ConfigError::MissingTransform { id: TransformId(3) })
    );
}

#[test]
fn a_transform_is_bypassed_by_id_and_nothing_else_changes() {
    let mut entries = entries();
    assert_eq!(set_transform_enabled(&mut entries, TransformId(0), false), Ok(()));
    assert!(!entries[0].enabled);
    assert!(entries[1].enabled);
    assert_eq!(entries[0].config, "diffuser");
    assert_eq!(
        set_transform_enabled(&mut entries, TransformId(9), false),
        Err(ConfigError::MissingTransform { id: TransformId(9) })
    );
}

#[test]
fn the_audio_generator_reads_an_audio_source() {
    assert_eq!(SpectrumGeneratorConfig::Audio(()).source_type(), SourceType::Audio);
}

#[test]
fn the_key_row_runs_from_c_with_five_black_keys() {
    let keys = (0..KEY_COUNT).map(key_at).collect::<Vec<_>>();
    assert_eq!(keys[0], (PitchClass::C, "C", false));
    assert_eq!(keys[1], (PitchClass::Db, "C♯", true));
    assert_eq!(keys[11], (PitchClass::B, "B", false));
    assert_eq!(keys.iter().filter(|(_, _, black)| *black).count(), 5);
    assert_eq!(key_name(PitchClass::Bb), "B♭");
    assert!(is_black_key(PitchClass::Gb));
    assert!(!is_black_key(PitchClass::F));
}

#[test]
fn notify_calls_every_live_subscription() {
    let called = RefCell::new(Vec::new());
    let mut subscriptions = vec![1, 2, 3];
    notify(&mut subscriptions, |&subscription| {
        called.borrow_mut().push(subscription);
        true
    });
    assert_eq!(*called.borrow(), [1, 2, 3]);
    assert_eq!(subscriptions, [1, 2, 3]);
}

#[test]
fn notify_forgets_dropped_subscriptions() {
    // Even numbers stand for subscriptions whose handle was dropped.
    let tried = RefCell::new(Vec::new());
    let mut subscriptions = vec![2, 1, 4, 3, 6];
    notify(&mut subscriptions, |&subscription| {
        tried.borrow_mut().push(subscription);
        subscription % 2 == 1
    });
    let mut tried = tried.into_inner();
    tried.sort();
    assert_eq!(tried, [1, 2, 3, 4, 6], "each subscription is tried once");
    assert_eq!(subscriptions, [3, 1], "the last is swapped into a gap");
}

#[test]
fn a_subscription_lasts_as_long_as_its_handle() {
    let calls = RefCell::new(0);
    let callback: Rc<Box<dyn Fn(&u32) -> u32>> = Rc::new(Box::new(|n: &u32| n + 1));
    let mut subscriptions: Vec<Weak<Box<dyn Fn(&u32) -> u32>>> = vec![Rc::downgrade(&callback)];
    let handle = SubscriptionHandle::new(callback);
    let try_callback = |subscription: &Weak<Box<dyn Fn(&u32) -> u32>>| match subscription.upgrade() {
        Some(callback) => {
            *calls.borrow_mut() += callback(&1);
            true
        }
        None => false,
    };

    notify(&mut subscriptions, try_callback);
    assert_eq!(*calls.borrow(), 2);
    assert_eq!(subscriptions.len(), 1);

    drop(handle);
    notify(&mut subscriptions, try_callback);
    assert_eq!(*calls.borrow(), 2, "a dropped handle's callback is not called");
    assert!(subscriptions.is_empty(), "and its subscription is forgotten");
}

#[test]
fn opening_a_stage_shuts_the_others() {
    assert_eq!(stages_to_close(4, 2, true), [0, 1, 3]);
    assert_eq!(stages_to_close(4, 0, true), [1, 2, 3]);
    assert!(stages_to_close(4, 2, false).is_empty());
    assert!(stages_to_close(1, 0, true).is_empty());
}

#[test]
fn stage_texts_read_as_the_pane_shows_them() {
    assert_eq!(window_text(43), "43 ms");
    assert_eq!(rate_text(60), "60 / sec");
    assert_eq!(harmonics_text(8), "8 harmonics");
    assert_eq!(spectrum_caption_text(180, 2048), "180 bins / octave · window 2048");
    assert_eq!(source_name(None), "None");
    assert_eq!(
        source_name(Some(PortName("system:capture_1".to_string()))),
        "system:capture_1"
    );
    assert_eq!(StageId::Source.dot_class(), "source");
    assert_eq!(StageId::Spectrum.dot_class(), "analysis");
    assert_eq!(StageId::Transform(TransformId(3)).dot_class(), "transform");
    assert_eq!(StageId::Spiral.dot_class(), "display");
}
