//! The composition engine: one image per monitor, scaled and placed on a
//! shared canvas.

use vstd::prelude::*;
use crate::config::{BFConfig, MonitorConfig};
use crate::raster::{channel_of, resampled, Raster};

verus! {

/// Channel `c` of canvas pixel `(x, y)` once the first `n` layers have been
/// placed, each on its monitor's offset, in order: the topmost layer that
/// covers the pixel decides, and a pixel that none covers is transparent black.
pub open spec fn composed_sample(
    monitors: Seq<MonitorConfig>,
    layers: Seq<Raster>,
    n: nat,
    x: int,
    y: int,
    c: int,
) -> u8
    decreases n,
{
    if n == 0 {
        0
    } else {
        let k = n - 1;
        if covers(monitors[k], layers[k], x, y) {
            layers[k]@.sample(x - monitors[k].x_offset, y - monitors[k].y_offset, c)
        } else {
            composed_sample(monitors, layers, k as nat, x, y, c)
        }
    }
}

/// Whether `layer`, placed on the offset of `monitor`, covers canvas pixel `(x, y)`.
pub open spec fn covers(monitor: MonitorConfig, layer: Raster, x: int, y: int) -> bool {
    layer@.contains(x - monitor.x_offset, y - monitor.y_offset)
}

/// Whether `out` is the image for `monitor`, given what was decoded from its
/// source: it has the monitor's size; it is opaque black where nothing was
/// decoded; it is the decoded image resampled to the monitor's size where
/// there is one; and that is the decoded image itself where it already has
/// the monitor's size.
pub open spec fn renders(monitor: MonitorConfig, decoded: Option<Raster>, out: Raster) -> bool {
    &&& out.wf()
    &&& out@.width == monitor.width
    &&& out@.height == monitor.height
    &&& decoded is None ==> out@.is_uniform(0, 0, 0, 255)
    &&& decoded is Some ==> out@.data == resampled(
        decoded.unwrap()@.width,
        decoded.unwrap()@.height,
        decoded.unwrap()@.data,
        monitor.width as int,
        monitor.height as int,
    )
    &&& decoded is Some && decoded.unwrap()@.width == monitor.width && decoded.unwrap()@.height
        == monitor.height ==> out@ == decoded.unwrap()@
}

/// Whether the scratch space for scaling `decoded` to the size of `monitor` fits in memory.
pub open spec fn scalable(monitor: MonitorConfig, decoded: Option<Raster>) -> bool {
    decoded is Some ==> decoded.unwrap().wf() && 4 * (decoded.unwrap()@.width * monitor.height)
        <= usize::MAX
}

/// Whether `decoded` can be scaled to the size of `monitor` on this machine.
pub fn is_scalable(monitor: &MonitorConfig, decoded: &Option<Raster>) -> (ok: bool)
    requires
        decoded is Some ==> decoded.unwrap().wf(),
    ensures
        ok == scalable(*monitor, *decoded),
{
    match decoded {
        None => true,
        Some(image) => {
            let w = image.width();
            let h = monitor.height;
            assert(w * h <= 0xffff_ffff * 0xffff_ffff) by (nonlinear_arith)
                requires
                    0 <= w <= 0xffff_ffff,
                    0 <= h <= 0xffff_ffff,
            ;
            let need: u128 = 4 * (w as u128 * h as u128);
            need <= usize::MAX as u128
        },
    }
}

/// The image that a monitor shows: the decoded source scaled to the monitor's
/// exact size, or an opaque black placeholder of that size where the source
/// could not be decoded.
pub fn render_monitor(monitor: &MonitorConfig, decoded: &Option<Raster>) -> (out: Raster)
    requires
        monitor.valid(),
        scalable(*monitor, *decoded),
    ensures
        renders(*monitor, *decoded, out),
{
    match decoded {
        Some(image) => image.scale_to(monitor.width, monitor.height),
        None => {
            let blank = Raster::filled(monitor.width, monitor.height, 0, 0, 0, 255);
            blank.scale_to(monitor.width, monitor.height)
        },
    }
}

/// Places the finished monitor images on a fresh canvas of the configured
/// size, in the order of the monitors.
pub fn compose(config: &BFConfig, layers: &Vec<Raster>) -> (canvas: Raster)
    requires
        config.valid(),
        layers@.len() == config.monitors@.len(),
        forall|i: int| 0 <= i < layers@.len() ==> (#[trigger] layers@[i]).wf(),
    ensures
        canvas.wf(),
        canvas@.width == config.width,
        canvas@.height == config.height,
        forall|x: int, y: int, c: int|
            canvas@.contains(x, y) && 0 <= c < 4 ==> #[trigger] canvas@.sample(x, y, c)
                == composed_sample(config.monitors@, layers@, layers@.len(), x, y, c),
{
    let mut canvas = Raster::filled(config.width, config.height, 0, 0, 0, 0);
    let mut i: usize = 0;
    while i < layers.len()
        invariant
            i <= layers@.len(),
            layers@.len() == config.monitors@.len(),
            forall|k: int| 0 <= k < layers@.len() ==> (#[trigger] layers@[k]).wf(),
            canvas.wf(),
            canvas@.width == config.width,
            canvas@.height == config.height,
            forall|x: int, y: int, c: int|
                canvas@.contains(x, y) && 0 <= c < 4 ==> #[trigger] canvas@.sample(x, y, c)
                    == composed_sample(config.monitors@, layers@, i as nat, x, y, c),
        decreases layers@.len() - i,
    {
        let monitor = &config.monitors[i];
        canvas.blit(&layers[i], monitor.x_offset, monitor.y_offset);
        i += 1;
    }
    canvas
}

/// The image of every monitor, in the order of the monitors, each rendered
/// from what was decoded for it.
pub fn render_all(config: &BFConfig, decoded: &Vec<Option<Raster>>) -> (layers: Vec<Raster>)
    requires
        config.valid(),
        decoded@.len() == config.monitors@.len(),
        forall|i: int| 0 <= i < decoded@.len() ==> scalable(config.monitors@[i], #[trigger] decoded@[i]),
    ensures
        layers@.len() == config.monitors@.len(),
        forall|i: int|
            0 <= i < layers@.len() ==> renders(config.monitors@[i], decoded@[i], #[trigger] layers@[i]),
{
    let mut layers: Vec<Raster> = Vec::new();
    let mut i: usize = 0;
    while i < decoded.len()
        invariant
            i <= decoded@.len(),
            config.valid(),
            decoded@.len() == config.monitors@.len(),
            forall|k: int| 0 <= k < decoded@.len() ==> scalable(config.monitors@[k], #[trigger] decoded@[k]),
            layers@.len() == i,
            forall|k: int| 0 <= k < i ==> renders(config.monitors@[k], decoded@[k], #[trigger] layers@[k]),
        decreases decoded@.len() - i,
    {
        assert(config.monitors@[i as int].valid());
        assert(scalable(config.monitors@[i as int], decoded@[i as int]));
        let layer = render_monitor(&config.monitors[i], &decoded[i]);
        layers.push(layer);
        i += 1;
    }
    layers
}

/// Builds the wallpaper: every monitor's image is rendered from what was
/// decoded for it, then all are placed on the canvas.
pub fn make_background(config: &BFConfig, decoded: &Vec<Option<Raster>>) -> (canvas: Raster)
    requires
        config.valid(),
        decoded@.len() == config.monitors@.len(),
        forall|i: int| 0 <= i < decoded@.len() ==> scalable(config.monitors@[i], #[trigger] decoded@[i]),
    ensures
        canvas.wf(),
        canvas@.width == config.width,
        canvas@.height == config.height,
        forall|x: int, y: int, c: int|
            canvas@.contains(x, y) && 0 <= c < 4 ==> #[trigger] canvas@.sample(x, y, c)
                == wallpaper_sample(config.monitors@, decoded@, decoded@.len(), x, y, c),
{
    let layers = render_all(config, decoded);
    let canvas = compose(config, &layers);
    proof {
        lemma_composed_is_wallpaper(config.monitors@, decoded@, layers@, layers@.len());
    }
    canvas
}

/// A canvas pixel that layer `i` covers, and no later layer does, shows that
/// layer's pixel exactly.
pub proof fn lemma_region_shows_layer(
    monitors: Seq<MonitorConfig>,
    layers: Seq<Raster>,
    n: nat,
    i: int,
    x: int,
    y: int,
    c: int,
)
    requires
        0 <= i < n,
        n <= layers.len(),
        n <= monitors.len(),
        covers(monitors[i], layers[i], x, y),
        forall|k: int| i < k < n ==> !covers(monitors[k], #[trigger] layers[k], x, y),
    ensures
        composed_sample(monitors, layers, n, x, y, c) == layers[i]@.sample(
            x - monitors[i].x_offset,
            y - monitors[i].y_offset,
            c,
        ),
    decreases n,
{
    if i < n - 1 {
        assert(!covers(monitors[n - 1], layers[n - 1], x, y));
        lemma_region_shows_layer(monitors, layers, (n - 1) as nat, i, x, y, c);
    }
}

/// A canvas pixel that no layer covers stays transparent black.
pub proof fn lemma_uncovered_is_clear(
    monitors: Seq<MonitorConfig>,
    layers: Seq<Raster>,
    n: nat,
    x: int,
    y: int,
    c: int,
)
    requires
        n <= layers.len(),
        n <= monitors.len(),
        forall|k: int| 0 <= k < n ==> !covers(monitors[k], #[trigger] layers[k], x, y),
    ensures
        composed_sample(monitors, layers, n, x, y, c) == 0,
    decreases n,
{
    if n > 0 {
        assert(!covers(monitors[n - 1], layers[n - 1], x, y));
        lemma_uncovered_is_clear(monitors, layers, (n - 1) as nat, x, y, c);
    }
}

/// Whether canvas pixel `(x, y)` lies in the rectangle configured for `monitor`.
pub open spec fn in_region(monitor: MonitorConfig, x: int, y: int) -> bool {
    &&& monitor.x_offset <= x < monitor.x_offset + monitor.width
    &&& monitor.y_offset <= y < monitor.y_offset + monitor.height
}

/// Channel `c` of pixel `(lx, ly)` of the image that `monitor` shows: opaque
/// black where nothing was decoded, the decoded image itself where it already
/// has the monitor's size, and the decoded image resampled to that size
/// otherwise.
pub open spec fn layer_sample(
    monitor: MonitorConfig,
    decoded: Option<Raster>,
    lx: int,
    ly: int,
    c: int,
) -> u8 {
    match decoded {
        None => channel_of(0, 0, 0, 255, c),
        Some(image) => if image@.width == monitor.width && image@.height == monitor.height {
            image@.sample(lx, ly, c)
        } else {
            resampled(
                image@.width,
                image@.height,
                image@.data,
                monitor.width as int,
                monitor.height as int,
            )[4 * (ly * monitor.width + lx) + c]
        },
    }
}

/// Channel `c` of pixel `(x, y)` of the wallpaper of the first `n` monitors:
/// the last monitor whose region holds the pixel decides, and a pixel in no
/// region is transparent black.
pub open spec fn wallpaper_sample(
    monitors: Seq<MonitorConfig>,
    decoded: Seq<Option<Raster>>,
    n: nat,
    x: int,
    y: int,
    c: int,
) -> u8
    decreases n,
{
    if n == 0 {
        0
    } else {
        let k = n - 1;
        if in_region(monitors[k], x, y) {
            layer_sample(
                monitors[k],
                decoded[k],
                x - monitors[k].x_offset,
                y - monitors[k].y_offset,
                c,
            )
        } else {
            wallpaper_sample(monitors, decoded, k as nat, x, y, c)
        }
    }
}

/// Placing layers that render the decoded sources gives the wallpaper.
pub proof fn lemma_composed_is_wallpaper(
    monitors: Seq<MonitorConfig>,
    decoded: Seq<Option<Raster>>,
    layers: Seq<Raster>,
    n: nat,
)
    requires
        n <= monitors.len(),
        n <= decoded.len(),
        n <= layers.len(),
        forall|i: int| 0 <= i < n ==> renders(monitors[i], decoded[i], #[trigger] layers[i]),
    ensures
        forall|x: int, y: int, c: int|
            0 <= c < 4 ==> #[trigger] composed_sample(monitors, layers, n, x, y, c)
                == wallpaper_sample(monitors, decoded, n, x, y, c),
    decreases n,
{
    if n > 0 {
        let k = n - 1;
        lemma_composed_is_wallpaper(monitors, decoded, layers, k as nat);
        assert(renders(monitors[k], decoded[k], layers[k]));
        assert forall|x: int, y: int, c: int| 0 <= c < 4 implies #[trigger] composed_sample(
            monitors,
            layers,
            n,
            x,
            y,
            c,
        ) == wallpaper_sample(monitors, decoded, n, x, y, c) by {
            let lx = x - monitors[k].x_offset;
            let ly = y - monitors[k].y_offset;
            assert(covers(monitors[k], layers[k], x, y) == in_region(monitors[k], x, y));
            if in_region(monitors[k], x, y) {
                assert(layers[k]@.contains(lx, ly));
                assert(layers[k]@.sample(lx, ly, c) == layers[k]@.data[4 * (ly * layers[k]@.width
                    + lx) + c]);
            } else {
                assert(composed_sample(monitors, layers, k as nat, x, y, c) == wallpaper_sample(
                    monitors,
                    decoded,
                    k as nat,
                    x,
                    y,
                    c,
                ));
            }
        }
    }
}

/// In a wallpaper, a pixel in the region of monitor `i` and in that of no
/// later monitor shows that monitor's image: opaque black where its source
/// could not be decoded, the source pixel for pixel where it already had the
/// monitor's size.
pub proof fn lemma_visible_region(
    monitors: Seq<MonitorConfig>,
    decoded: Seq<Option<Raster>>,
    n: nat,
    i: int,
    x: int,
    y: int,
    c: int,
)
    requires
        0 <= i < n,
        n <= monitors.len(),
        n <= decoded.len(),
        in_region(monitors[i], x, y),
        forall|k: int| i < k < n ==> !in_region(#[trigger] monitors[k], x, y),
    ensures
        wallpaper_sample(monitors, decoded, n, x, y, c) == layer_sample(
            monitors[i],
            decoded[i],
            x - monitors[i].x_offset,
            y - monitors[i].y_offset,
            c,
        ),
        decoded[i] is None ==> wallpaper_sample(monitors, decoded, n, x, y, c) == channel_of(
            0,
            0,
            0,
            255,
            c,
        ),
        decoded[i] is Some && decoded[i].unwrap()@.width == monitors[i].width
            && decoded[i].unwrap()@.height == monitors[i].height ==> wallpaper_sample(
            monitors,
            decoded,
            n,
            x,
            y,
            c,
        ) == decoded[i].unwrap()@.sample(x - monitors[i].x_offset, y - monitors[i].y_offset, c),
    decreases n,
{
    if i < n - 1 {
        assert(!in_region(monitors[n - 1], x, y));
        lemma_visible_region(monitors, decoded, (n - 1) as nat, i, x, y, c);
    }
}

/// In a wallpaper, a pixel in no monitor's region is transparent black.
pub proof fn lemma_outside_is_clear(
    monitors: Seq<MonitorConfig>,
    decoded: Seq<Option<Raster>>,
    n: nat,
    x: int,
    y: int,
    c: int,
)
    requires
        n <= monitors.len(),
        n <= decoded.len(),
        forall|k: int| 0 <= k < n ==> !in_region(#[trigger] monitors[k], x, y),
    ensures
        wallpaper_sample(monitors, decoded, n, x, y, c) == 0,
    decreases n,
{
    if n > 0 {
        assert(!in_region(monitors[n - 1], x, y));
        lemma_outside_is_clear(monitors, decoded, (n - 1) as nat, x, y, c);
    }
}

} // verus!
