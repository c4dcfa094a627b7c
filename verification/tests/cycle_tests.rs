use background_fission::backend::{ApplyError, ApplyStep};
use background_fission::config::{BFConfig, Backend, MonitorConfig};
use background_fission::cycle::{
    compose_and_set_background, first_step, get_epoch, make_and_set_background,
};
use background_fission::raster::Raster;

fn config(backend: Backend) -> BFConfig {
    BFConfig {
        width: 4,
        height: 2,
        monitors: vec![
            MonitorConfig {
                use_slideshow: false,
                path: String::from("a.png"),
                width: 2,
                height: 2,
                x_offset: 0,
                y_offset: 0,
            },
            MonitorConfig {
                use_slideshow: true,
                path: String::from("pics"),
                width: 2,
                height: 2,
                x_offset: 2,
                y_offset: 0,
            },
        ],
        delay: String::from("0 1/30 * * * * *"),
        backend,
    }
}

#[test]
fn cycle_composes_names_encodes_and_starts_applying() {
    let a = Raster::filled(2, 2, 200, 100, 50, 255);
    let cycle = make_and_set_background(&config(Backend::Feh), 1234, "/out", &vec![Some(a), None]);
    assert_eq!(
        cycle.canvas.as_bytes(),
        &vec![
            200, 100, 50, 255, 200, 100, 50, 255, 0, 0, 0, 255, 0, 0, 0, 255, 200, 100, 50, 255, 200,
            100, 50, 255, 0, 0, 0, 255, 0, 0, 0, 255
        ]
    );
    assert_eq!(cycle.artifact, "/out/background-1234.png");
    assert_eq!(
        cycle.first_step,
        ApplyStep::RunHelper {
            program: String::from("feh"),
            args: vec![
                String::from("--no-xinerama"),
                String::from("--bg-center"),
                String::from("/out/background-1234.png"),
            ],
        }
    );
    let decoded = image::load_from_memory(&cycle.encoded.unwrap()).unwrap().into_rgba8();
    assert_eq!(decoded.dimensions(), (4, 2));
    assert_eq!(&decoded.into_raw(), cycle.canvas.as_bytes());
}

#[test]
fn cycle_for_the_registry_backend_begins_with_the_address() {
    let cycle = make_and_set_background(&config(Backend::Cinnamon), 7, "/out/", &vec![None, None]);
    assert_eq!(
        cycle.first_step,
        ApplyStep::WriteKey {
            key: String::from("/org/cinnamon/desktop/background/picture-uri"),
            value: String::from("file:///out/background-7.png"),
        }
    );
}

#[test]
fn epoch_is_after_the_year_2020() {
    let now = get_epoch().unwrap();
    assert!(now > 1_577_836_800);
}

#[test]
fn finished_layers_are_placed_as_they_are() {
    let left = Raster::filled(2, 2, 1, 2, 3, 4);
    let right = Raster::filled(2, 2, 5, 6, 7, 8);
    let layers = vec![left.clone(), right.clone()];
    let cycle = compose_and_set_background(&config(Backend::Feh), 99, "/out", &layers);
    assert_eq!(
        cycle.canvas.as_bytes(),
        &vec![1, 2, 3, 4, 1, 2, 3, 4, 5, 6, 7, 8, 5, 6, 7, 8, 1, 2, 3, 4, 1, 2, 3, 4, 5, 6, 7, 8, 5, 6, 7, 8]
    );
    assert_eq!(cycle.artifact, "/out/background-99.png");
    assert_eq!(cycle.encoded, cycle.canvas.encode());
    let whole = make_and_set_background(&config(Backend::Feh), 99, "/out", &vec![Some(left), Some(right)]);
    assert_eq!(whole, cycle);
}

#[test]
fn nothing_is_applied_when_nothing_could_be_encoded() {
    assert_eq!(
        first_step(&Backend::Feh, "/out/background-1.png", &None),
        ApplyStep::Failed(ApplyError::NotPublished)
    );
    assert_eq!(
        first_step(&Backend::Cinnamon, "/out/background-1.png", &None),
        ApplyStep::Failed(ApplyError::NotPublished)
    );
    assert_eq!(
        first_step(&Backend::Cinnamon, "/out/background-1.png", &Some(vec![1, 2, 3])),
        ApplyStep::WriteKey {
            key: String::from("/org/cinnamon/desktop/background/picture-uri"),
            value: String::from("file:///out/background-1.png"),
        }
    );
}
