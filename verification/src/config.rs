//! The parts of the application's configuration that are addressed by id and
//! kind rather than by value: the generator's kind, and the transform chain's
//! entries.

use vstd::prelude::*;

use crate::audio::source::SourceType;
use crate::spectrum::TransformId;

verus! {

/// The spectrum generator the configuration names, with its settings.
#[derive(Debug, Clone, PartialEq)]
pub enum SpectrumGeneratorConfig<A> {
    Audio(A),
}

impl<A> SpectrumGeneratorConfig<A> {
    /// The kind of source the configured generator reads.
    pub fn source_type(&self) -> (source_type: SourceType)
        ensures
            source_type == match *self {
                SpectrumGeneratorConfig::Audio(_) => SourceType::Audio,
            },
    {
        match self {
            SpectrumGeneratorConfig::Audio(_) => SourceType::Audio,
        }
    }
}

/// One stage of the transform chain: the id it is addressed by, how it is
/// configured, and whether it runs.
///
/// `enabled` is the bypass switch's state. It lives here so that rebuilding
/// the chain from the configuration keeps a bypassed stage bypassed.
#[derive(Debug, Clone, PartialEq)]
pub struct TransformEntry<C> {
    pub id: TransformId,
    pub config: C,
    pub enabled: bool,
}

/// Why a configuration lookup failed.
#[derive(Debug, Clone, Copy, PartialEq, Eq, Structural)]
pub enum ConfigError {
    /// The configuration holds no transform with this id.
    MissingTransform { id: TransformId },
}

/// Whether `index` is where the first entry with `id` stands.
pub open spec fn is_first_entry<C>(entries: Seq<TransformEntry<C>>, id: TransformId, index: int) -> bool {
    &&& 0 <= index < entries.len()
    &&& entries[index].id == id
    &&& forall|j: int| 0 <= j < index ==> entries[j].id != id
}

/// Whether any entry has `id`.
pub open spec fn has_entry<C>(entries: Seq<TransformEntry<C>>, id: TransformId) -> bool {
    exists|index: int| 0 <= index < entries.len() && entries[index].id == id
}

/// Where the first entry with `id` stands.
pub open spec fn entry_index<C>(entries: Seq<TransformEntry<C>>, id: TransformId) -> int {
    choose|index: int| is_first_entry(entries, id, index)
}

/// An id that occurs has exactly one first entry.
pub proof fn lemma_entry_index<C>(entries: Seq<TransformEntry<C>>, id: TransformId)
    requires
        has_entry(entries, id),
    ensures
        is_first_entry(entries, id, entry_index(entries, id)),
        forall|i: int| is_first_entry(entries, id, i) ==> i == entry_index(entries, id),
    decreases entries.len(),
{
    assert(entries.len() > 0);
    if entries[0].id == id {
        assert(is_first_entry(entries, id, 0));
    } else {
        let rest = entries.drop_first();
        let k = choose|index: int| 0 <= index < entries.len() && entries[index].id == id;
        assert(rest[k - 1].id == id);
        lemma_entry_index(rest, id);
        let i = entry_index(rest, id);
        assert forall|j: int| 0 <= j < i + 1 implies entries[j].id != id by {
            if j > 0 {
                assert(entries[j] == rest[j - 1]);
            }
        }
        assert(entries[i + 1] == rest[i]);
        assert(is_first_entry(entries, id, i + 1));
    }
    let f = entry_index(entries, id);
    assert forall|n: int| is_first_entry(entries, id, n) implies n == f by {
        if n < f {
            assert(entries[n].id != id);
        } else if f < n {
            assert(entries[f].id != id);
        }
    }
}

/// Where the first entry with `id` stands, or `None` if there is none.
pub fn find_entry<C>(entries: &[TransformEntry<C>], id: TransformId) -> (index: Option<usize>)
    ensures
        match index {
            Some(i) => is_first_entry(entries@, id, i as int),
            None => !has_entry(entries@, id),
        },
{
    let mut i: usize = 0;
    while i < entries.len()
        invariant
            i <= entries.len(),
            forall|j: int| 0 <= j < i ==> entries@[j].id != id,
        decreases entries.len() - i,
    {
        if entries[i].id == id {
            return Some(i);
        }
        i = i + 1;
    }
    None
}

/// The entry of the transform identified by `id`.
pub fn spectrum_transform_entry<C>(entries: &[TransformEntry<C>], id: TransformId) -> (entry: Result<
    &TransformEntry<C>,
    ConfigError,
>)
    ensures
        has_entry(entries@, id) ==> entry == Ok::<&TransformEntry<C>, ConfigError>(
            &entries@[entry_index(entries@, id)],
        ),
        !has_entry(entries@, id) ==> entry == Err::<&TransformEntry<C>, ConfigError>(
            ConfigError::MissingTransform { id },
        ),
{
    match find_entry(entries, id) {
        Some(index) => {
            proof {
                lemma_entry_index(entries@, id);
            }
            Ok(&entries[index])
        },
        None => Err(ConfigError::MissingTransform { id }),
    }
}

/// The configuration of the transform identified by `id`.
pub fn spectrum_transform<C>(entries: &[TransformEntry<C>], id: TransformId) -> (config: Result<
    &C,
    ConfigError,
>)
    ensures
        has_entry(entries@, id) ==> config == Ok::<&C, ConfigError>(
            &entries@[entry_index(entries@, id)].config,
        ),
        !has_entry(entries@, id) ==> config == Err::<&C, ConfigError>(
            ConfigError::MissingTransform { id },
        ),
{
    match spectrum_transform_entry(entries, id) {
        Ok(entry) => Ok(&entry.config),
        Err(err) => Err(err),
    }
}

/// The configuration of the transform identified by `id`, to edit in place.
pub fn spectrum_transform_mut<C>(entries: &mut Vec<TransformEntry<C>>, id: TransformId) -> (config:
    Result<&mut C, ConfigError>)
    ensures
        has_entry(old(entries)@, id) ==> config is Ok && *(config->Ok_0) == old(
            entries,
        )@[entry_index(old(entries)@, id)].config && final(entries)@ == old(entries)@.update(
            entry_index(old(entries)@, id),
            (TransformEntry {
                config: *final(config->Ok_0),
                ..old(entries)@[entry_index(old(entries)@, id)]
            }),
        ),
        !has_entry(old(entries)@, id) ==> config is Err && config->Err_0 == (
        ConfigError::MissingTransform { id }) && final(entries)@ == old(entries)@,
{
    match find_entry(entries.as_slice(), id) {
        Some(index) => {
            proof {
                lemma_entry_index(entries@, id);
            }
            Ok(&mut entries[index].config)
        },
        None => Err(ConfigError::MissingTransform { id }),
    }
}

/// Runs or bypasses the transform identified by `id`.
///
/// Only the flag changes: an entry's id is what the chain, the configuration
/// and the controls address it by, so nothing outside may change it.
pub fn set_transform_enabled<C>(
    entries: &mut Vec<TransformEntry<C>>,
    id: TransformId,
    enabled: bool,
) -> (result: Result<(), ConfigError>)
    ensures
        has_entry(old(entries)@, id) ==> result is Ok && final(entries)@ == old(entries)@.update(
            entry_index(old(entries)@, id),
            TransformEntry { enabled, ..old(entries)@[entry_index(old(entries)@, id)] },
        ),
        !has_entry(old(entries)@, id) ==> result == Err::<(), ConfigError>(
            ConfigError::MissingTransform { id },
        ) && final(entries)@ == old(entries)@,
{
    match find_entry(entries.as_slice(), id) {
        Some(index) => {
            proof {
                lemma_entry_index(entries@, id);
            }
            let ghost before = entries@;
            entries[index].enabled = enabled;
            proof {
                assert(entries@ =~= before.update(
                    index as int,
                    TransformEntry { enabled, ..before[index as int] },
                ));
            }
            Ok(())
        },
        None => Err(ConfigError::MissingTransform { id }),
    }
}

} // verus!
