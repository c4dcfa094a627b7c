//! One regeneration cycle, from decoded sources to the first backend step.

use vstd::prelude::*;
use crate::backend::{next_step, set_background, ApplyError, ApplyStep, StepModel, StepOutcome};
use crate::compose::{
    compose, composed_sample, lemma_composed_is_wallpaper, render_all, scalable, wallpaper_sample,
};
use crate::config::{BFConfig, Backend};
use crate::output::{artifact_name_of, artifact_path, joined};
use crate::raster::{bytes_view, png_encoding, Raster};

verus! {

/// What a cycle produces before anything is written or applied.
#[derive(Debug, Clone, PartialEq, Eq)]
pub struct Cycle {
    /// The finished wallpaper.
    pub canvas: Raster,
    /// The wallpaper as a PNG file, or `None` where it could not be encoded.
    pub encoded: Option<Vec<u8>>,
    /// Where the encoded wallpaper is to be written.
    pub artifact: String,
    /// The first step in applying it; a failure where there is nothing to write.
    pub first_step: ApplyStep,
}

/// Reads `SystemTime::elapsed` of the standard library on the Unix epoch, in
/// whole seconds; `None` where the clock stands before the epoch. Nothing is
/// claimed of the number.
#[verifier::external_body]
fn unix_seconds() -> (secs: Option<u64>) {
    match std::time::SystemTime::UNIX_EPOCH.elapsed() {
        Ok(elapsed) => Some(elapsed.as_secs()),
        Err(_) => None,
    }
}

/// The seconds since the Unix epoch, which name a cycle's artifact; `None`
/// where the clock cannot tell.
pub fn get_epoch() -> (secs: Option<u64>) {
    unix_seconds()
}

/// The first step of a cycle: applying begins only where the wallpaper could
/// be encoded; where it could not, the cycle has failed before any step.
pub open spec fn first_step_of(
    backend: Backend,
    artifact: Seq<char>,
    encoded: Option<Seq<u8>>,
) -> StepModel {
    if encoded is None {
        StepModel::Failed(ApplyError::NotPublished)
    } else {
        next_step(backend, Some(artifact), Seq::empty())
    }
}

/// The first step of a cycle whose wallpaper was encoded as `encoded` and is
/// to be written to `artifact`.
pub fn first_step(backend: &Backend, artifact: &str, encoded: &Option<Vec<u8>>) -> (step: ApplyStep)
    ensures
        step@ == first_step_of(*backend, artifact@, bytes_view(*encoded)),
{
    match encoded {
        Some(_) => {
            let history: Vec<StepOutcome> = Vec::new();
            set_background(Some(artifact), backend, &history)
        },
        None => ApplyStep::Failed(ApplyError::NotPublished),
    }
}

/// Whether `cycle` holds its canvas encoded, its artifact named after
/// `unique` inside `image_dir`, and the step that begins applying it.
pub open spec fn completes(cycle: Cycle, config: BFConfig, unique: u64, image_dir: Seq<char>) -> bool {
    &&& bytes_view(cycle.encoded) == png_encoding(
        cycle.canvas@.width,
        cycle.canvas@.height,
        cycle.canvas@.data,
    )
    &&& cycle.artifact@ == joined(image_dir, artifact_name_of(unique as nat))
    &&& cycle.first_step@ == first_step_of(config.backend, cycle.artifact@, bytes_view(cycle.encoded))
}

/// Places the finished monitor images `layers` on the canvas of `config`,
/// encodes it, names its artifact after `unique` inside `image_dir`, and says
/// how to begin applying it with the configured backend.
pub fn compose_and_set_background(
    config: &BFConfig,
    unique: u64,
    image_dir: &str,
    layers: &Vec<Raster>,
) -> (cycle: Cycle)
    requires
        config.valid(),
        layers@.len() == config.monitors@.len(),
        forall|i: int| 0 <= i < layers@.len() ==> (#[trigger] layers@[i]).wf(),
    ensures
        cycle.canvas.wf(),
        cycle.canvas@.width == config.width,
        cycle.canvas@.height == config.height,
        forall|x: int, y: int, c: int|
            cycle.canvas@.contains(x, y) && 0 <= c < 4 ==> #[trigger] cycle.canvas@.sample(x, y, c)
                == composed_sample(config.monitors@, layers@, layers@.len(), x, y, c),
        completes(cycle, *config, unique, image_dir@),
{
    let canvas = compose(config, layers);
    let encoded = canvas.encode();
    let artifact = artifact_path(image_dir, unique);
    let first_step = first_step(&config.backend, artifact.as_str(), &encoded);
    Cycle { canvas, encoded, artifact, first_step }
}

/// Builds the wallpaper of `config` from what was decoded for each monitor,
/// encodes it, names its artifact after `unique` inside `image_dir`, and says
/// how to begin applying it with the configured backend.
pub fn make_and_set_background(
    config: &BFConfig,
    unique: u64,
    image_dir: &str,
    decoded: &Vec<Option<Raster>>,
) -> (cycle: Cycle)
    requires
        config.valid(),
        decoded@.len() == config.monitors@.len(),
        forall|i: int|
            0 <= i < decoded@.len() ==> scalable(config.monitors@[i], #[trigger] decoded@[i]),
    ensures
        cycle.canvas.wf(),
        cycle.canvas@.width == config.width,
        cycle.canvas@.height == config.height,
        forall|x: int, y: int, c: int|
            cycle.canvas@.contains(x, y) && 0 <= c < 4 ==> #[trigger] cycle.canvas@.sample(x, y, c)
                == wallpaper_sample(config.monitors@, decoded@, decoded@.len(), x, y, c),
        completes(cycle, *config, unique, image_dir@),
{
    let layers = render_all(config, decoded);
    let cycle = compose_and_set_background(config, unique, image_dir, &layers);
    proof {
        lemma_composed_is_wallpaper(config.monitors@, decoded@, layers@, layers@.len());
    }
    cycle
}

} // verus!
