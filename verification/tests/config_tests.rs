use background_fission::config::{size_fits, BFConfig, Backend, FileKind, LoadStep, MonitorConfig, PathProbe};

fn monitor(use_slideshow: bool) -> MonitorConfig {
    MonitorConfig {
        use_slideshow,
        path: String::from("~/pictures"),
        width: 1920,
        height: 1080,
        x_offset: 0,
        y_offset: 0,
    }
}

fn probe(canonical: Option<&str>, is_file: bool, is_dir: bool, listing: Option<Vec<&str>>) -> PathProbe {
    PathProbe {
        canonical: canonical.map(String::from),
        is_file,
        is_dir,
        listing: listing.map(|l| l.into_iter().map(String::from).collect()),
    }
}

#[test]
fn single_file_resolves_to_itself() {
    let p = probe(Some("/home/u/a.png"), true, false, None);
    assert_eq!(monitor(false).get_image_path(&p), Ok(String::from("/home/u/a.png")));
    assert_eq!(monitor(false).select_image(&p, Some(3)), Ok(String::from("/home/u/a.png")));
}

#[test]
fn path_that_cannot_be_canonicalized_is_an_error() {
    let p = probe(None, true, true, Some(vec!["/x/a.png"]));
    assert_eq!(monitor(false).get_image_path(&p), Err(String::from("Unable to canonicalize path")));
    assert_eq!(monitor(true).get_image_path(&p), Err(String::from("Unable to canonicalize path")));
}

#[test]
fn single_file_mode_needs_a_regular_file() {
    let p = probe(Some("/home/u"), false, true, Some(vec!["/home/u/a.png"]));
    assert_eq!(monitor(false).get_image_path(&p), Err(String::from("Path is not file")));
}

#[test]
fn slideshow_mode_needs_a_directory() {
    let p = probe(Some("/home/u/a.png"), true, false, None);
    assert_eq!(monitor(true).get_image_path(&p), Err(String::from("Path is not a directory")));
}

#[test]
fn slideshow_needs_a_listing() {
    let p = probe(Some("/home/u"), false, true, None);
    assert_eq!(monitor(true).get_image_path(&p), Err(String::from("Unable to list directory")));
}

#[test]
fn slideshow_over_empty_directory_is_an_error() {
    let p = probe(Some("/home/u"), false, true, Some(vec![]));
    assert_eq!(monitor(true).get_image_path(&p), Err(String::from("Unable to choose image")));
    assert_eq!(monitor(true).select_image(&p, None), Err(String::from("Unable to choose image")));
}

#[test]
fn select_image_takes_the_drawn_entry() {
    let p = probe(Some("/d"), false, true, Some(vec!["/d/a", "/d/b", "/d/c"]));
    assert_eq!(monitor(true).select_image(&p, Some(0)), Ok(String::from("/d/a")));
    assert_eq!(monitor(true).select_image(&p, Some(2)), Ok(String::from("/d/c")));
    assert_eq!(monitor(true).select_image(&p, Some(3)), Err(String::from("Unable to choose image")));
    assert_eq!(monitor(true).select_image(&p, None), Err(String::from("Unable to choose image")));
}

#[test]
fn slideshow_draws_only_listed_files_and_more_than_one() {
    let files = vec!["/d/a", "/d/b", "/d/c"];
    let p = probe(Some("/d"), false, true, Some(files.clone()));
    let mut seen = Vec::new();
    for _ in 0..300 {
        let got = monitor(true).get_image_path(&p).unwrap();
        assert!(files.contains(&got.as_str()));
        if !seen.contains(&got) {
            seen.push(got);
        }
    }
    assert!(seen.len() >= 2);
}

#[test]
fn slideshow_with_one_file_always_gives_it() {
    let p = probe(Some("/d"), false, true, Some(vec!["/d/only"]));
    for _ in 0..20 {
        assert_eq!(monitor(true).get_image_path(&p), Ok(String::from("/d/only")));
    }
}

#[test]
fn sizes_must_be_positive() {
    assert!(size_fits(1920, 1080));
    assert!(size_fits(1, 1));
    assert!(!size_fits(0, 1080));
    assert!(!size_fits(1920, 0));
    assert!(!size_fits(u32::MAX, u32::MAX));
}

#[test]
fn configuration_validity_covers_every_monitor() {
    let mut cfg = BFConfig {
        width: 1920,
        height: 1080,
        monitors: vec![monitor(false), monitor(true)],
        delay: String::from("0 1/30 * * * * *"),
        backend: Backend::Cinnamon,
    };
    assert!(cfg.is_valid());
    cfg.monitors[1].height = 0;
    assert!(!cfg.monitors[1].is_valid());
    assert!(!cfg.is_valid());
    cfg.monitors[1].height = 1;
    cfg.width = 0;
    assert!(!cfg.is_valid());
}

#[test]
fn missing_file_gives_the_default_configuration() {
    let step = BFConfig::load(FileKind::Missing, String::from("/home/u/Pictures"));
    let expected = BFConfig {
        width: 1920,
        height: 1080,
        monitors: vec![MonitorConfig {
            use_slideshow: true,
            path: String::from("/home/u/Pictures"),
            width: 1920,
            height: 1080,
            x_offset: 0,
            y_offset: 0,
        }],
        delay: String::from("0 1/30 * * * * *"),
        backend: Backend::Feh,
    };
    assert_eq!(step, LoadStep::WriteDefault(expected.clone()));
    assert_eq!(BFConfig::initial(String::from("/home/u/Pictures")), expected);
}

#[test]
fn existing_places_are_read_or_refused() {
    assert_eq!(BFConfig::load(FileKind::RegularFile, String::new()), LoadStep::ReadFile);
    assert_eq!(BFConfig::load(FileKind::Directory, String::new()), LoadStep::FailIsDirectory);
    assert_eq!(BFConfig::load(FileKind::Other, String::new()), LoadStep::FailUnknown);
}
