//! The configuration of a wallpaper: canvas, monitors, schedule and backend.

use vstd::prelude::*;
use vstd::string::*;
use crate::raster::fits;

verus! {

/// How a finished wallpaper is handed to the desktop.
#[derive(Debug, Clone, Copy, PartialEq, Eq)]
pub enum Backend {
    /// Two writes to the desktop's settings store.
    Cinnamon,
    /// One run of the `feh` helper program.
    Feh,
}

/// One monitor: where its images come from, their size, and their place on the canvas.
#[derive(Debug, Clone, PartialEq, Eq)]
pub struct MonitorConfig {
    /// Whether `path` is a directory to draw a file from on every cycle.
    pub use_slideshow: bool,
    /// The image file, or the directory of image files.
    pub path: String,
    /// Width of the monitor's image in pixels.
    pub width: u32,
    /// Height of the monitor's image in pixels.
    pub height: u32,
    /// Column of the canvas on which the image's left edge is placed.
    pub x_offset: u32,
    /// Row of the canvas on which the image's top edge is placed.
    pub y_offset: u32,
}

/// The whole configuration; `delay` is a cron expression.
#[derive(Debug, Clone, PartialEq, Eq)]
pub struct BFConfig {
    /// Width of the canvas in pixels.
    pub width: u32,
    /// Height of the canvas in pixels.
    pub height: u32,
    /// The monitors, in the order in which their images are placed.
    pub monitors: Vec<MonitorConfig>,
    /// When to regenerate, as a cron expression.
    pub delay: String,
    /// How the wallpaper is applied.
    pub backend: Backend,
}

/// What the file system says about a monitor's configured path.
#[derive(Debug, Clone, PartialEq, Eq)]
pub struct PathProbe {
    /// The canonical form of the path, if it has one.
    pub canonical: Option<String>,
    /// Whether the canonical path is a regular file.
    pub is_file: bool,
    /// Whether the canonical path is a directory.
    pub is_dir: bool,
    /// The regular files of the directory, if it could be listed.
    pub listing: Option<Vec<String>>,
}

/// What the file system says about the place of the configuration file.
#[derive(Debug, Clone, Copy, PartialEq, Eq)]
pub enum FileKind {
    /// Nothing is there.
    Missing,
    /// A directory is there.
    Directory,
    /// A regular file is there.
    RegularFile,
    /// Something else is there.
    Other,
}

/// What has to happen to get a configuration, given the state of its file.
#[derive(Debug, Clone, PartialEq, Eq)]
pub enum LoadStep {
    /// No file yet: write this default configuration and use it.
    WriteDefault(BFConfig),
    /// Read and parse the file.
    ReadFile,
    /// The place is taken by a directory.
    FailIsDirectory,
    /// The place holds something that is neither a file nor a directory.
    FailUnknown,
}

/// Whether `width` by `height` is a size that a pixel buffer can have.
pub open spec fn fits_u32(width: u32, height: u32) -> bool {
    fits(width as int, height as int)
}

/// Decides whether `width` by `height` is a size that a pixel buffer can have:
/// both positive, and four bytes per pixel within the machine's address range.
pub fn size_fits(width: u32, height: u32) -> (ok: bool)
    ensures
        ok == fits_u32(width, height),
{
    if width == 0 || height == 0 {
        return false;
    }
    assert(width * height <= 0xffff_ffff * 0xffff_ffff) by (nonlinear_arith)
        requires
            width <= 0xffff_ffff,
            height <= 0xffff_ffff,
    ;
    assert(0 < width * height) by (nonlinear_arith)
        requires
            0 < width,
            0 < height,
    ;
    let need: u128 = 4 * (width as u128 * height as u128);
    need <= usize::MAX as u128
}

/// Whether `c` is the configuration that is written when none exists: a
/// full-HD canvas, one monitor that fills it and cycles through the pictures
/// directory, a new wallpaper every half hour, applied with `feh`.
pub open spec fn is_initial(c: BFConfig, pictures: Seq<char>) -> bool {
    &&& c.width == 1920
    &&& c.height == 1080
    &&& c.monitors@.len() == 1
    &&& c.monitors@[0].use_slideshow
    &&& c.monitors@[0].path@ == pictures
    &&& c.monitors@[0].width == 1920
    &&& c.monitors@[0].height == 1080
    &&& c.monitors@[0].x_offset == 0
    &&& c.monitors@[0].y_offset == 0
    &&& c.delay@ == "0 1/30 * * * * *"@
    &&& c.backend == Backend::Feh
}

/// The outcome of resolving a monitor's path, given what the file system
/// reported and which entry of the listing was drawn.
pub open spec fn resolved(
    use_slideshow: bool,
    probe: PathProbe,
    pick: Option<usize>,
) -> Result<Seq<char>, Seq<char>> {
    if probe.canonical is None {
        Err("Unable to canonicalize path"@)
    } else if !use_slideshow {
        if probe.is_file {
            Ok(probe.canonical.unwrap()@)
        } else {
            Err("Path is not file"@)
        }
    } else if !probe.is_dir {
        Err("Path is not a directory"@)
    } else if probe.listing is None {
        Err("Unable to list directory"@)
    } else if pick is Some && pick.unwrap() < probe.listing.unwrap()@.len() {
        Ok(probe.listing.unwrap()@[pick.unwrap() as int]@)
    } else {
        Err("Unable to choose image"@)
    }
}

/// Whether a slideshow can draw a file: the path is a directory that could be
/// listed and holds at least one regular file.
pub open spec fn drawable(probe: PathProbe) -> bool {
    &&& probe.canonical is Some
    &&& probe.is_dir
    &&& probe.listing is Some
    &&& probe.listing.unwrap()@.len() > 0
}

/// The view of a resolution result.
pub open spec fn outcome_view(r: Result<String, String>) -> Result<Seq<char>, Seq<char>> {
    match r {
        Ok(p) => Ok(p@),
        Err(e) => Err(e@),
    }
}

/// Draws one index below `n` with `IteratorRandom::choose` of the rand crate
/// on the thread's generator. Believed of it: nothing is drawn from an empty
/// range, and what is drawn from any other lies in it.
#[verifier::external_body]
fn choose_index(n: usize) -> (pick: Option<usize>)
    ensures
        n == 0 ==> pick is None,
        n > 0 ==> pick is Some && pick.unwrap() < n,
{
    rand::seq::IteratorRandom::choose(0..n, &mut rand::thread_rng())
}

impl MonitorConfig {
    /// A monitor image has a positive size that fits in memory.
    pub open spec fn valid(&self) -> bool {
        fits_u32(self.width, self.height)
    }

    /// Whether this monitor's target size is usable.
    pub fn is_valid(&self) -> (ok: bool)
        ensures
            ok == self.valid(),
    {
        size_fits(self.width, self.height)
    }

    /// The image file for this monitor when entry `pick` of the directory
    /// listing has been drawn. Without slideshow the draw plays no part.
    pub fn select_image(&self, probe: &PathProbe, pick: Option<usize>) -> (r: Result<
        String,
        String,
    >)
        ensures
            outcome_view(r) == resolved(self.use_slideshow, *probe, pick),
    {
        match &probe.canonical {
            None => Err(String::from_str("Unable to canonicalize path")),
            Some(base) => {
                if !self.use_slideshow {
                    if probe.is_file {
                        Ok(base.clone())
                    } else {
                        Err(String::from_str("Path is not file"))
                    }
                } else if !probe.is_dir {
                    Err(String::from_str("Path is not a directory"))
                } else {
                    match &probe.listing {
                        None => Err(String::from_str("Unable to list directory")),
                        Some(files) => {
                            match pick {
                                Some(k) => {
                                    if k < files.len() {
                                        Ok(files[k].clone())
                                    } else {
                                        Err(String::from_str("Unable to choose image"))
                                    }
                                },
                                None => Err(String::from_str("Unable to choose image")),
                            }
                        },
                    }
                }
            },
        }
    }

    /// The image file for this monitor: the configured file itself, or, with
    /// slideshow, a file drawn at random from the configured directory.
    pub fn get_image_path(&self, probe: &PathProbe) -> (r: Result<String, String>)
        ensures
            !self.use_slideshow ==> outcome_view(r) == resolved(false, *probe, None),
            self.use_slideshow ==> (r is Ok <==> drawable(*probe)),
            self.use_slideshow && r is Ok ==> exists|k: int|
                0 <= k < probe.listing.unwrap()@.len() && r.unwrap()@
                    == #[trigger] probe.listing.unwrap()@[k]@,
            self.use_slideshow && r is Err ==> outcome_view(r) == resolved(true, *probe, None),
    {
        let count: usize = match &probe.listing {
            Some(files) => files.len(),
            None => 0,
        };
        let pick = choose_index(count);
        let r = self.select_image(probe, pick);
        proof {
            if self.use_slideshow && r is Ok {
                assert(r.unwrap()@ == probe.listing.unwrap()@[pick.unwrap() as int]@);
            }
        }
        r
    }
}

impl BFConfig {
    /// The canvas and every monitor image have a usable size.
    pub open spec fn valid(&self) -> bool {
        &&& fits_u32(self.width, self.height)
        &&& forall|i: int| 0 <= i < self.monitors@.len() ==> (#[trigger] self.monitors@[i]).valid()
    }

    /// Whether this configuration can be composed.
    pub fn is_valid(&self) -> (ok: bool)
        ensures
            ok == self.valid(),
    {
        if !size_fits(self.width, self.height) {
            return false;
        }
        let mut i: usize = 0;
        while i < self.monitors.len()
            invariant
                i <= self.monitors@.len(),
                forall|k: int| 0 <= k < i ==> (#[trigger] self.monitors@[k]).valid(),
            decreases self.monitors@.len() - i,
        {
            if !self.monitors[i].is_valid() {
                return false;
            }
            i += 1;
        }
        true
    }

    /// The configuration that is written when none exists: one full-HD
    /// monitor that cycles through the pictures directory every half hour.
    pub fn initial(pictures: String) -> (c: BFConfig)
        ensures
            is_initial(c, pictures@),
            c.valid(),
    {
        let mut monitors: Vec<MonitorConfig> = Vec::new();
        monitors.push(
            MonitorConfig {
                use_slideshow: true,
                path: pictures,
                width: 1920,
                height: 1080,
                x_offset: 0,
                y_offset: 0,
            },
        );
        BFConfig {
            width: 1920,
            height: 1080,
            monitors,
            delay: String::from_str("0 1/30 * * * * *"),
            backend: Backend::Feh,
        }
    }

    /// What to do to obtain the configuration, given what stands at the place
    /// of its file; `pictures` is the user's pictures directory.
    pub fn load(kind: FileKind, pictures: String) -> (step: LoadStep)
        ensures
            kind == FileKind::Missing ==> step is WriteDefault && is_initial(
                step->WriteDefault_0,
                pictures@,
            ) && step->WriteDefault_0.valid(),
            kind == FileKind::Directory ==> step is FailIsDirectory,
            kind == FileKind::RegularFile ==> step is ReadFile,
            kind == FileKind::Other ==> step is FailUnknown,
    {
        match kind {
            FileKind::Missing => LoadStep::WriteDefault(BFConfig::initial(pictures)),
            FileKind::Directory => LoadStep::FailIsDirectory,
            FileKind::RegularFile => LoadStep::ReadFile,
            FileKind::Other => LoadStep::FailUnknown,
        }
    }
}

} // verus!
