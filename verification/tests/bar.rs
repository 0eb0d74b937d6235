use baru::module::unfit;
use baru::module::Module;
use baru::module::Reading;
use baru::module::Request;
use baru::temperature::Config as SensorConfig;
use baru::temperature::Entry;
use baru::temperature::Listing;
use baru::temperature::Temperature;
use baru::Bar;
use baru::Config;
use baru::Error;
use baru::Failure;
use baru::ModuleConfig;
use baru::FAILED;

fn config(bar: &str, modules: Vec<ModuleConfig>) -> Config {
    Config {
        bar: String::from(bar),
        tick: Some(500),
        default_font: String::from("<f0>"),
        icon_font: String::from("<f1>"),
        default_color: String::from("<white>"),
        red: String::from("<red>"),
        green: String::from("<green>"),
        sink: None,
        source: None,
        modules,
        cpu_tick: None,
        wireless_tick: None,
        pulse_tick: None,
        proc_stat: None,
        proc_meminfo: None,
        energy_now: None,
        power_status: None,
        energy_full_design: None,
        coretemp: None,
        backlight: None,
        temperature: Some(SensorConfig { coretemp: Some(String::from("/h")), high_level: None }),
    }
}

fn one_dir() -> Listing {
    Ok(vec![Ok(Entry { path: Some(String::from("/h/hwmon3")), is_dir: true })])
}

fn rendered(text: &str) -> Reading {
    Reading::Segment(Ok(String::from(text)))
}

fn sensor(contents: [&str; 4]) -> Reading {
    Reading::Sensor(contents.map(|content| Ok(String::from(content))))
}

fn kinds(bar: &Bar) -> Vec<ModuleConfig> {
    bar.requests()
        .into_iter()
        .map(|request| match request {
            Request::Files(_) => ModuleConfig::Temperature,
            Request::Render(kind) => kind,
        })
        .collect()
}

#[test]
fn modules_follow_the_template() {
    let config = config("%w | %a | %b", vec![]);
    let bar = Bar::with_config(&config, false, &one_dir()).unwrap();
    assert_eq!(bar.len(), 3);
    assert_eq!(
        kinds(&bar),
        vec![ModuleConfig::Wireless, ModuleConfig::DateTime, ModuleConfig::Battery]
    );
}

#[test]
fn listed_modules_decide_nothing() {
    let listed = vec![
        ModuleConfig::Battery,
        ModuleConfig::DateTime,
        ModuleConfig::Memory,
        ModuleConfig::Wireless,
    ];
    let with_list = config("%w%a%b", listed);
    let without = config("%w%a%b", vec![]);
    let first = Bar::with_config(&with_list, false, &one_dir()).unwrap();
    let second = Bar::with_config(&without, false, &one_dir()).unwrap();
    assert_eq!(kinds(&first), kinds(&second));
    assert_eq!(
        kinds(&first),
        vec![ModuleConfig::Wireless, ModuleConfig::DateTime, ModuleConfig::Battery]
    );
    let mut first = first;
    let update = first.update(&vec![rendered("W"), rendered("A"), rendered("B")]);
    assert_eq!(update.line, "WAB");
}

#[test]
fn empty_template_gives_an_empty_bar() {
    let config = config("", vec![ModuleConfig::Battery]);
    let mut bar = Bar::with_config(&config, false, &one_dir()).unwrap();
    assert_eq!(bar.len(), 0);
    assert_eq!(bar.requests(), vec![]);
    let update = bar.update(&vec![]);
    assert_eq!(update.line, "");
    assert_eq!(update.failures, vec![]);
    let update = bar.update(&vec![rendered("x")]);
    assert_eq!(update.line, "");
}

#[test]
fn every_kind_of_module() {
    let config = config("%a%b%c%d%m%i%s%t%w", vec![]);
    let bar = Bar::with_config(&config, true, &one_dir()).unwrap();
    assert_eq!(
        kinds(&bar),
        vec![
            ModuleConfig::DateTime,
            ModuleConfig::Battery,
            ModuleConfig::Cpu,
            ModuleConfig::Brightness,
            ModuleConfig::Memory,
            ModuleConfig::Mic,
            ModuleConfig::Sound,
            ModuleConfig::Temperature,
            ModuleConfig::Wireless,
        ]
    );
}

#[test]
fn repeated_marker_gives_a_module_each_time() {
    let config = config("%t %b %t", vec![]);
    let mut bar = Bar::with_config(&config, false, &one_dir()).unwrap();
    assert_eq!(
        kinds(&bar),
        vec![ModuleConfig::Temperature, ModuleConfig::Battery, ModuleConfig::Temperature]
    );
    let update = bar.update(&vec![
        sensor(["45000", "45000", "45000", "45000"]),
        rendered("[bat]"),
        sensor(["80000", "80000", "80000", "80000"]),
    ]);
    assert_eq!(
        update.line,
        " 45\u{b0} <white><f1>\u{f10c3}<f0><white>[bat] 80\u{b0} <red><f1>\u{f10c2}<f0><white>"
    );
    assert_eq!(update.failures, vec![]);
}

#[test]
fn temperature_module_asks_for_its_files() {
    let config = config("%b%t", vec![]);
    let bar = Bar::with_config(&config, false, &one_dir()).unwrap();
    assert_eq!(
        bar.requests(),
        vec![
            Request::Render(ModuleConfig::Battery),
            Request::Files(vec![
                String::from("/h/hwmon3/temp2_input"),
                String::from("/h/hwmon3/temp3_input"),
                String::from("/h/hwmon3/temp4_input"),
                String::from("/h/hwmon3/temp5_input"),
            ]),
        ]
    );
}

#[test]
fn no_bar_without_the_sensor_directory() {
    let config = config("%b %t", vec![]);
    let error = Bar::with_config(&config, false, &Ok(vec![])).unwrap_err();
    assert_eq!(
        error.message(),
        "error while resolving coretemp path: no directory found under \"/h\""
    );
    let error = Bar::with_config(&config, false, &Err(String::from("denied"))).unwrap_err();
    assert_eq!(error.message(), "error while reading the directory \"/h\": denied");
}

#[test]
fn listing_is_not_looked_at_without_a_temperature_module() {
    let config = config("%b %w", vec![ModuleConfig::Temperature]);
    let bar = Bar::with_config(&config, false, &Err(String::from("denied"))).unwrap();
    assert_eq!(kinds(&bar), vec![ModuleConfig::Battery, ModuleConfig::Wireless]);
}

#[test]
fn audio_modules_with_the_audio_client() {
    let config = config("%s%i", vec![]);
    let bar = Bar::with_config(&config, true, &one_dir()).unwrap();
    assert_eq!(kinds(&bar), vec![ModuleConfig::Sound, ModuleConfig::Mic]);
}

#[test]
fn segments_are_joined_in_template_order() {
    let config = config("%w %a %b", vec![ModuleConfig::Battery, ModuleConfig::Wireless]);
    let mut bar = Bar::with_config(&config, false, &one_dir()).unwrap();
    let update = bar.update(&vec![rendered("wifi "), rendered("12:00 "), rendered("93%")]);
    assert_eq!(update.line, "wifi 12:00 93%");
    assert_eq!(update.failures, vec![]);
}

#[test]
fn failure_of_one_module_leaves_the_others() {
    let config = config("%b%t%w", vec![]);
    let mut bar = Bar::with_config(&config, false, &one_dir()).unwrap();
    let missing = Reading::Sensor([
        Ok(String::from("45000")),
        Err(String::from("No such file or directory (os error 2)")),
        Ok(String::from("45000")),
        Ok(String::from("45000")),
    ]);
    let update = bar.update(&vec![rendered("[bat]"), missing, rendered("[wifi]")]);
    assert_eq!(FAILED, "?");
    assert_eq!(update.line, "[bat]?[wifi]");
    assert_eq!(
        update.failures,
        vec![Failure {
            index: 1,
            markup: 't',
            error: Error::new(String::from(
                "error while reading the file \"/h/hwmon3/temp3_input\": No such file or directory (os error 2)"
            )),
        }]
    );
}

#[test]
fn failed_module_is_tried_again_on_the_next_tick() {
    let config = config("%t%b", vec![]);
    let mut bar = Bar::with_config(&config, false, &one_dir()).unwrap();
    let update = bar.update(&vec![sensor(["45000", "x", "45000", "45000"]), rendered("[bat]")]);
    assert_eq!(update.line, "?[bat]");
    assert_eq!(update.failures.len(), 1);
    let update =
        bar.update(&vec![sensor(["45000", "45000", "45000", "45000"]), rendered("[bat]")]);
    assert_eq!(update.line, " 45\u{b0} <white><f1>\u{f10c3}<f0><white>[bat]");
    assert_eq!(update.failures, vec![]);
    assert_eq!(bar.len(), 2);
}

#[test]
fn every_failure_is_reported() {
    let config = config("%a%b%c", vec![]);
    let mut bar = Bar::with_config(&config, false, &one_dir()).unwrap();
    let update = bar.update(&vec![
        Reading::Segment(Err(Error::new(String::from("no clock")))),
        rendered("[bat]"),
        Reading::Segment(Err(Error::new(String::from("no cpu")))),
    ]);
    assert_eq!(update.line, "?[bat]?");
    assert_eq!(
        update.failures,
        vec![
            Failure { index: 0, markup: 'a', error: Error::new(String::from("no clock")) },
            Failure { index: 2, markup: 'c', error: Error::new(String::from("no cpu")) },
        ]
    );
}

#[test]
fn module_without_a_reading_fails() {
    let config = config("%a%b", vec![]);
    let mut bar = Bar::with_config(&config, false, &one_dir()).unwrap();
    let update = bar.update(&vec![rendered("12:00")]);
    assert_eq!(update.line, "12:00?");
    assert_eq!(
        update.failures,
        vec![Failure {
            index: 1,
            markup: 'b',
            error: Error::new(String::from(
                "error while refreshing the module \"b\": no reading of its kind"
            )),
        }]
    );
    assert_eq!(update.failures[0].error, unfit('b'));
}

#[test]
fn reading_of_another_kind_fails() {
    let config = config("%t%b", vec![]);
    let mut bar = Bar::with_config(&config, false, &one_dir()).unwrap();
    let update =
        bar.update(&vec![rendered("hot"), sensor(["45000", "45000", "45000", "45000"])]);
    assert_eq!(update.line, "??");
    assert_eq!(
        update.failures,
        vec![
            Failure { index: 0, markup: 't', error: unfit('t') },
            Failure { index: 1, markup: 'b', error: unfit('b') },
        ]
    );
}

#[test]
fn readings_beyond_the_modules_are_left_out() {
    let config = config("%a", vec![]);
    let mut bar = Bar::with_config(&config, false, &one_dir()).unwrap();
    let update = bar.update(&vec![rendered("12:00"), rendered("more")]);
    assert_eq!(update.line, "12:00");
    assert_eq!(update.failures, vec![]);
}

#[test]
fn module_kinds_and_markers() {
    let config = config("%t", vec![]);
    let sensor_module = Temperature::with_config(&config, &one_dir()).unwrap();
    let modules = [
        (Module::DateTime, ModuleConfig::DateTime, 'a'),
        (Module::Battery, ModuleConfig::Battery, 'b'),
        (Module::Cpu, ModuleConfig::Cpu, 'c'),
        (Module::Brightness, ModuleConfig::Brightness, 'd'),
        (Module::Mic, ModuleConfig::Mic, 'i'),
        (Module::Memory, ModuleConfig::Memory, 'm'),
        (Module::Sound, ModuleConfig::Sound, 's'),
        (Module::Temperature(sensor_module), ModuleConfig::Temperature, 't'),
        (Module::Wireless, ModuleConfig::Wireless, 'w'),
    ];
    for (module, kind, markup) in modules {
        assert_eq!(module.kind(), kind);
        assert_eq!(module.markup(), markup);
    }
}

#[test]
fn module_refresh_hands_the_rendered_segment_on() {
    let mut module = Module::Battery;
    assert_eq!(module.refresh(&rendered("93%")), Ok(String::from("93%")));
    let failed = Reading::Segment(Err(Error::new(String::from("no battery"))));
    assert_eq!(module.refresh(&failed), Err(Error::new(String::from("no battery"))));
    assert_eq!(module.request(), Request::Render(ModuleConfig::Battery));
}
