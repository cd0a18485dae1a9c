use cum::config::{Config, Preset};
use cum::config_parser::ConfigParser;
use cum::errors::{ErrorMessage, ParsingError};
use cum::text::{decimal_text, signed_decimal_text, trim_text};
use cum::timer::Timer;

fn s(x: &str) -> String {
    String::from(x)
}

fn preset(cflags: &[&str], folder: &str) -> Preset {
    Preset { cflags: cflags.iter().map(|x| s(x)).collect(), lflags: vec![], libs: vec![], target_folder: s(folder) }
}

fn base() -> Config {
    Config {
        std: 20,
        include_dirs: vec![s("include")],
        lib_dirs: vec![s("lib")],
        target_name: s("app"),
        presets: vec![(s("debug"), preset(&["-g"], "target/debug"))],
    }
}

#[test]
fn incremental_merge_overrides_given_settings() {
    let mut cfg = base();
    let other = Config {
        std: 0,
        include_dirs: vec![s("inc2")],
        lib_dirs: vec![],
        target_name: s(""),
        presets: vec![(s("debug"), preset(&[], "out")), (s("release"), preset(&["-O2"], "target/release"))],
    };
    cfg.incremental_merge(other);
    assert_eq!(cfg.std, 20);
    assert_eq!(cfg.include_dirs, vec![s("inc2")]);
    assert_eq!(cfg.lib_dirs, vec![s("lib")]);
    assert_eq!(cfg.target_name, "app");
    let d = cfg.preset("debug").unwrap();
    assert_eq!(d.cflags, vec![s("-g")]);
    assert_eq!(d.target_folder, "out");
    assert_eq!(cfg.preset("release").unwrap().cflags, vec![s("-O2")]);
    assert_eq!(cfg.presets.len(), 2);
}

#[test]
fn std_as_str_values() {
    let mut cfg = base();
    for (std, text) in [(3u8, "03"), (11, "11"), (14, "14"), (17, "17"), (20, "20"), (23, "23")] {
        cfg.std = std;
        assert_eq!(cfg.std_as_str().unwrap(), text);
    }
    cfg.std = 98;
    assert!(cfg.std_as_str().is_none());
}

#[test]
fn wrong_standard_is_rejected() {
    let parser = ConfigParser::new(s("Cum.toml"));
    let mut cfg = base();
    let mut defaults = base();
    defaults.std = 99;
    let err = parser.make_default(&mut cfg, Ok(defaults)).unwrap_err();
    assert!(matches!(err, ParsingError::WrongStandart(99)));
    assert_eq!(err.message(), "Unallowed standart: '99'");
    let mut cfg = base();
    let mut user = base();
    user.std = 7;
    assert!(parser.try_incremental_parse(&mut cfg, Some(Ok(user))).is_err());
}

#[test]
fn missing_user_file_keeps_defaults() {
    let parser = ConfigParser::new(s("Cum.toml"));
    assert_eq!(parser.file(), "Cum.toml");
    let mut cfg = base();
    parser.try_incremental_parse(&mut cfg, None).unwrap();
    assert_eq!(cfg.target_name, "app");
    let err = parser.try_incremental_parse(&mut cfg, Some(Err(ParsingError::TomlParsing(s("bad key"))))).unwrap_err();
    assert_eq!(err.message(), "Toml parsing error: [bad key]");
    assert_eq!(ParsingError::FileIO(s("denied")).message(), "File IO error: [denied]");
    assert_eq!(ParsingError::ParamRequired(s("p")).message(), "Parameter required: 'p'");
}

#[test]
fn text_helpers() {
    assert_eq!(decimal_text(0), "0");
    assert_eq!(decimal_text(1234567), "1234567");
    assert_eq!(signed_decimal_text(-2147483648), "-2147483648");
    assert_eq!(signed_decimal_text(42), "42");
    assert_eq!(trim_text("\t a b \n"), "a b");
    assert_eq!(trim_text("   "), "");
}

#[test]
fn timer_measures_once_started() {
    let mut t = Timer::new();
    assert!(t.elapsed().is_none());
    t.stop();
    assert!(t.elapsed().is_none());
    t.start();
    t.start();
    t.stop();
    assert!(t.elapsed().is_some());
}
