use shove::cli::ColorWhen;
use shove::dot::Error as DotError;
use shove::ft::Type;
use shove::log::{init, ColorChoice, Event, Failure, Level, Line, Logger};

fn s(x: &str) -> String {
    x.to_string()
}

#[test]
fn verbosity_sets_the_quietest_level() {
    let max = |v| init(v, false, ColorWhen::Never, false, false).max;
    assert_eq!(max(0), Level::Error);
    assert_eq!(max(1), Level::Warn);
    assert_eq!(max(2), Level::Info);
    assert_eq!(max(3), Level::Debug);
    assert_eq!(max(4), Level::Trace);
    assert_eq!(max(5), Level::Trace);
    assert_eq!(max(usize::MAX), Level::Trace);
}

#[test]
fn colour_follows_the_wish_and_the_terminal() {
    assert_eq!(ColorChoice::choose_for(ColorWhen::Always, false), ColorChoice::AlwaysAnsi);
    assert_eq!(ColorChoice::choose_for(ColorWhen::Always, true), ColorChoice::AlwaysAnsi);
    assert_eq!(ColorChoice::choose_for(ColorWhen::Never, true), ColorChoice::Never);
    assert_eq!(ColorChoice::choose_for(ColorWhen::Never, false), ColorChoice::Never);
    assert_eq!(ColorChoice::choose_for(ColorWhen::Auto, true), ColorChoice::Auto);
    assert_eq!(ColorChoice::choose_for(ColorWhen::Auto, false), ColorChoice::Never);
    let l = init(1, true, ColorWhen::Auto, true, false);
    assert_eq!(
        l,
        Logger {
            berserker: true,
            stderr_choice: ColorChoice::Auto,
            stdout_choice: ColorChoice::Never,
            max: Level::Warn,
        }
    );
}

#[test]
fn quiet_levels_are_held_back() {
    let l = init(2, false, ColorWhen::Never, false, false);
    assert!(l.enabled(Level::Error));
    assert!(l.enabled(Level::Warn));
    assert!(l.enabled(Level::Info));
    assert!(!l.enabled(Level::Debug));
    assert!(!l.enabled(Level::Trace));
    assert_eq!(l.log(Level::Debug), None);
    let silent = init(0, false, ColorWhen::Never, false, false);
    assert!(silent.enabled(Level::Error));
    assert!(!silent.enabled(Level::Warn));
}

#[test]
fn errors_go_to_the_error_stream_and_end_the_process() {
    let l = init(0, false, ColorWhen::Always, false, false);
    assert_eq!(
        l.log(Level::Error),
        Some(Line { stderr: true, choice: ColorChoice::AlwaysAnsi, level: Level::Error, fatal: true })
    );
    let b = init(0, true, ColorWhen::Auto, true, false);
    assert_eq!(
        b.log(Level::Error),
        Some(Line { stderr: true, choice: ColorChoice::Auto, level: Level::Error, fatal: false })
    );
}

#[test]
fn everything_else_goes_to_the_output_stream() {
    let l = init(4, false, ColorWhen::Auto, false, true);
    for level in [Level::Warn, Level::Info, Level::Debug, Level::Trace] {
        assert_eq!(
            l.log(level),
            Some(Line { stderr: false, choice: ColorChoice::Auto, level, fatal: false })
        );
    }
}

#[test]
fn each_level_has_its_word_and_colour() {
    assert_eq!((Level::Error.label(), Level::Error.color()), ("ERROR", 1));
    assert_eq!((Level::Warn.label(), Level::Warn.color()), ("WARN", 3));
    assert_eq!((Level::Info.label(), Level::Info.color()), ("INFO", 2));
    assert_eq!((Level::Debug.label(), Level::Debug.color()), ("DEBUG", 11));
    assert_eq!((Level::Trace.label(), Level::Trace.color()), ("TRACE", 13));
}

#[test]
fn each_report_has_its_level() {
    assert_eq!(Event::UnknownDot(s("x")).level(), Level::Error);
    assert_eq!(Event::BadIgnore(s("x")).level(), Level::Error);
    assert_eq!(Event::Rejected(DotError::nonex("d", "/d")).level(), Level::Error);
    assert_eq!(Event::Failed { path: s("/x"), why: Failure::NoRelative }.level(), Level::Error);
    assert_eq!(Event::DryRun.level(), Level::Warn);
    assert_eq!(Event::Ignored(s("/d/.git")).level(), Level::Warn);
    assert_eq!(Event::Dot(s("d")).level(), Level::Info);
    assert_eq!(Event::Visit { src: s("/d/a"), dest: s("/h/a"), back: false }.level(), Level::Info);
    assert_eq!(Event::Kept { dest: s("/h/a"), ty: Type::Dotlink }.level(), Level::Debug);
    assert_eq!(Event::Removed { dest: s("/h/a"), ty: Type::File, done: true }.level(), Level::Debug);
    assert_eq!(Event::Linked { dest: s("/h/a"), target: s("/d/a"), done: true }.level(), Level::Debug);
    assert_eq!(Event::Made { dest: s("/h/a"), done: false }.level(), Level::Debug);
    assert_eq!(Event::Rooted { dest: s("/h"), done: true }.level(), Level::Debug);
}
