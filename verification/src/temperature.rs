//! The temperature module: it finds the sensor's directory once, and on
//! every tick turns four readings into a number, an icon and a colour.

use crate::error::text_view;
use crate::error::Error;
use crate::number::decimal;
use crate::number::pad_left;
use crate::number::padded;
use crate::number::round_div;
use crate::parsed_read;
use crate::read_and_parse;
use crate::Config as MainConfig;
use vstd::prelude::*;

verus! {

/// The directory under which the sensor's directory lies, unless the
/// configuration names another.
pub const CORETEMP: &'static str = "/sys/devices/platform/coretemp.0/hwmon";

/// The temperature from which on the alert colour is used, unless the
/// configuration names another.
pub const HIGH_LEVEL: u32 = 75;

/// What the temperature module takes in place of its defaults.
#[derive(Debug, PartialEq)]
pub struct Config {
    /// The directory under which the sensor's directory lies.
    pub coretemp: Option<String>,
    /// The temperature from which on the alert colour is used.
    pub high_level: Option<u32>,
}

/// One entry of a directory, as the host found it.
#[derive(Debug, PartialEq, Eq)]
pub struct Entry {
    /// The path of the entry; `None` where the path is not valid Unicode.
    pub path: Option<String>,
    /// Whether the entry is a directory.
    pub is_dir: bool,
}

/// What listing a directory gave: its entries in the order in which they
/// came, each one read or failed with a reason, or the reason why the
/// directory could not be listed.
pub type Listing = Result<Vec<Result<Entry, String>>, String>;

/// The temperature module of a bar.
#[derive(Debug)]
pub struct Temperature<'a> {
    coretemp: String,
    config: &'a MainConfig,
    high_level: u32,
}

/// What a temperature module holds.
pub struct TemperatureView {
    /// The sensor's directory.
    pub coretemp: Seq<char>,
    /// The configuration of the bar.
    pub config: MainConfig,
    /// The temperature from which on the alert colour is used.
    pub high_level: u32,
}

impl<'a> View for Temperature<'a> {
    type V = TemperatureView;

    closed spec fn view(&self) -> TemperatureView {
        TemperatureView {
            coretemp: self.coretemp@,
            config: *self.config,
            high_level: self.high_level,
        }
    }
}

/// The directory under which the sensor's directory is looked for.
pub open spec fn base_path(config: MainConfig) -> Seq<char> {
    match config.temperature {
        Some(Config { coretemp: Some(path), .. }) => path@,
        _ => CORETEMP@,
    }
}

/// The temperature from which on the alert colour is used.
pub open spec fn alert_level(config: MainConfig) -> u32 {
    match config.temperature {
        Some(Config { high_level: Some(level), .. }) => level,
        _ => HIGH_LEVEL,
    }
}

/// The message of the error for a directory that could not be listed.
pub open spec fn listing_message(path: Seq<char>, reason: Seq<char>) -> Seq<char> {
    "error while reading the directory \""@ + path + "\": "@ + reason
}

/// The message of the error for a directory that holds no directory.
pub open spec fn unresolved_message(path: Seq<char>) -> Seq<char> {
    "error while resolving coretemp path: no directory found under \""@ + path + "\""@
}

/// What going through `entries` in order gives: the path of the first
/// directory that has one, or the reason of an entry that failed before it,
/// or, with neither, the error for `path`.
pub open spec fn first_dir(entries: Seq<Result<Entry, String>>, path: Seq<char>) -> Result<
    Seq<char>,
    Seq<char>,
>
    decreases entries.len(),
{
    if entries.len() == 0 {
        Err(unresolved_message(path))
    } else {
        match entries.first() {
            Err(reason) => Err(reason@),
            Ok(Entry { path: Some(found), is_dir: true }) => Ok(found@),
            Ok(_) => first_dir(entries.drop_first(), path),
        }
    }
}

/// The sensor's directory under `path`, where listing `path` gave `listing`.
pub open spec fn temp_dir(path: Seq<char>, listing: Listing) -> Result<Seq<char>, Seq<char>> {
    match listing {
        Ok(entries) => first_dir(entries@, path),
        Err(reason) => Err(listing_message(path, reason@)),
    }
}

/// The sensor's directory of `module`, or the message of the error.
pub open spec fn resolved(module: Result<Temperature, Error>) -> Result<Seq<char>, Seq<char>> {
    match module {
        Ok(module) => Ok(module@.coretemp),
        Err(error) => Err(error@),
    }
}

/// The four files of the sensor in `dir`, in the order in which they are read.
pub open spec fn sensor_files(dir: Seq<char>) -> Seq<Seq<char>> {
    seq![
        dir + "/temp2_input"@,
        dir + "/temp3_input"@,
        dir + "/temp4_input"@,
        dir + "/temp5_input"@,
    ]
}

/// The temperature shown for four readings in thousandths of a degree: their
/// mean in degrees, rounded to the nearest integer, a half away from zero.
pub open spec fn shown_value(core_1: int, core_2: int, core_3: int, core_4: int) -> int {
    round_div(core_1 + core_2 + core_3 + core_4, 4000)
}

/// The icon for the temperature `value`.
pub open spec fn icon_of(value: int) -> char {
    if 0 <= value <= 49 {
        '\u{f10c3}'
    } else if 50 <= value <= 69 {
        '\u{f050f}'
    } else if 70 <= value <= 100 {
        '\u{f10c2}'
    } else {
        '\u{f0e01}'
    }
}

/// The colour for the temperature `value`: the alert colour from
/// `high_level` on, the ordinary colour below it.
pub open spec fn color_of(value: int, high_level: u32, config: MainConfig) -> Seq<char> {
    if value >= high_level {
        config.red@
    } else {
        config.default_color@
    }
}

/// The segment for the temperature `value`: the number in three columns, the
/// degree sign, the colour, the icon in its font, and the way back to the
/// ordinary font and colour.
pub open spec fn segment(value: int, high_level: u32, config: MainConfig) -> Seq<char> {
    pad_left(decimal(value), 3) + seq!['\u{b0}', ' '] + color_of(value, high_level, config)
        + config.icon_font@ + seq![icon_of(value)] + config.default_font@
        + config.default_color@
}

/// What the file `k` of the sensor in `dir` holds, where reading the four
/// files gave `reads`.
pub open spec fn core_reading(dir: Seq<char>, reads: Seq<Result<String, String>>, k: int) -> Result<
    i32,
    Seq<char>,
> {
    parsed_read(sensor_files(dir)[k], reads[k])
}

/// What a refresh gives, where reading the four files gave `reads`: the
/// segment, or the error of the first file that could not be read or does
/// not hold an integer.
pub open spec fn refreshed(module: TemperatureView, reads: Seq<Result<String, String>>) -> Result<
    Seq<char>,
    Seq<char>,
> {
    let dir = module.coretemp;
    match (
        core_reading(dir, reads, 0),
        core_reading(dir, reads, 1),
        core_reading(dir, reads, 2),
        core_reading(dir, reads, 3),
    ) {
        (Err(message), _, _, _) => Err(message),
        (_, Err(message), _, _) => Err(message),
        (_, _, Err(message), _) => Err(message),
        (_, _, _, Err(message)) => Err(message),
        (Ok(core_1), Ok(core_2), Ok(core_3), Ok(core_4)) => Ok(
            segment(
                shown_value(core_1 as int, core_2 as int, core_3 as int, core_4 as int),
                module.high_level,
                module.config,
            ),
        ),
    }
}

/// Whether the search for the sensor's directory ends at `entry`: it failed,
/// or it is a directory with a path.
pub open spec fn decides(entry: Result<Entry, String>) -> bool {
    match entry {
        Err(_) => true,
        Ok(Entry { path: Some(_), is_dir: true }) => true,
        Ok(_) => false,
    }
}

/// The search goes by the first entry that decides it: where the entries
/// before `k` decide nothing, the entry at `k` gives the result if it
/// decides, and with `k` at the end of the entries nothing is found.
pub proof fn lemma_first_dir_decided(entries: Seq<Result<Entry, String>>, path: Seq<char>, k: int)
    requires
        0 <= k <= entries.len(),
        forall|j: int| 0 <= j < k ==> !decides(#[trigger] entries[j]),
        k < entries.len() ==> decides(entries[k]),
    ensures
        first_dir(entries, path) == (if k == entries.len() {
            Err::<Seq<char>, Seq<char>>(unresolved_message(path))
        } else {
            match entries[k] {
                Err(reason) => Err(reason@),
                Ok(entry) => Ok(entry.path->0@),
            }
        }),
    decreases k,
{
    if k > 0 {
        let rest = entries.drop_first();
        assert(!decides(entries[0]));
        assert forall|j: int| 0 <= j < k - 1 implies !decides(#[trigger] rest[j]) by {
            assert(rest[j] == entries[j + 1]);
        }
        lemma_first_dir_decided(rest, path, k - 1);
    }
}

/// The alert colour is used from the alert level on, the level itself
/// included, and the ordinary colour below it.
pub proof fn lemma_alert_boundary(value: int, high_level: u32, config: MainConfig)
    ensures
        value >= high_level ==> color_of(value, high_level, config) == config.red@,
        value < high_level ==> color_of(value, high_level, config) == config.default_color@,
        color_of(high_level as int, high_level, config) == config.red@,
{
}

/// The four bands have four icons, and a temperature has the icon of its
/// band: 0 to 49, 50 to 69, 70 to 100, and all the rest.
pub proof fn lemma_icon_bands(value: int)
    ensures
        0 <= value <= 49 <==> icon_of(value) == icon_of(0),
        50 <= value <= 69 <==> icon_of(value) == icon_of(50),
        70 <= value <= 100 <==> icon_of(value) == icon_of(70),
        value < 0 || value > 100 <==> icon_of(value) == icon_of(-1),
{
}

/// The directory under which the sensor's directory is looked for.
pub fn coretemp_path(config: &MainConfig) -> (path: &str)
    ensures
        path@ == base_path(*config),
{
    match &config.temperature {
        Some(Config { coretemp: Some(path), .. }) => path.as_str(),
        _ => CORETEMP,
    }
}

/// The sensor's directory under `str_path`: the first directory among the
/// entries that listing `str_path` gave.
#[verifier::loop_isolation(false)]
pub fn find_temp_dir(str_path: &str, listing: &Listing) -> (dir: Result<String, Error>)
    ensures
        text_view(dir) == temp_dir(str_path@, *listing),
{
    let entries = match listing {
        Ok(entries) => entries,
        Err(reason) => {
            let mut message = String::new();
            message.append("error while reading the directory \"");
            message.append(str_path);
            message.append("\": ");
            message.append(reason.as_str());
            return Err(Error::new(message));
        },
    };
    let mut k: usize = 0;
    proof {
        assert(entries@.skip(0) == entries@);
    }
    while k < entries.len()
        invariant
            k <= entries.len(),
            first_dir(entries@, str_path@) == first_dir(entries@.skip(k as int), str_path@),
        decreases entries.len() - k,
    {
        proof {
            assert(entries@.skip(k as int).first() == entries@[k as int]);
            assert(entries@.skip(k as int).drop_first() == entries@.skip(k + 1));
        }
        match &entries[k] {
            Err(reason) => {
                return Err(Error::new(reason.clone()));
            },
            Ok(Entry { path: Some(found), is_dir: true }) => {
                return Ok(found.clone());
            },
            Ok(_) => {},
        }
        k += 1;
    }
    let mut message = String::new();
    message.append("error while resolving coretemp path: no directory found under \"");
    message.append(str_path);
    message.append("\"");
    Err(Error::new(message))
}

/// The temperature shown for four readings in thousandths of a degree.
pub fn shown(core_1: i32, core_2: i32, core_3: i32, core_4: i32) -> (average: i32)
    ensures
        average == shown_value(core_1 as int, core_2 as int, core_3 as int, core_4 as int),
{
    let sum: i64 = core_1 as i64 + core_2 as i64 + core_3 as i64 + core_4 as i64;
    let average: i64 = if sum >= 0 {
        (sum + 2000) / 4000
    } else {
        -((2000 - sum) / 4000)
    };
    proof {
        assert((2 * sum + 4000) / 8000 == (sum + 2000) / 4000);
        assert((4000 - 2 * sum) / 8000 == (2000 - sum) / 4000);
    }
    average as i32
}

/// The icon for the temperature `value`.
pub fn icon(value: i32) -> (icon: char)
    ensures
        icon == icon_of(value as int),
{
    if 0 <= value && value <= 49 {
        '\u{f10c3}'
    } else if 50 <= value && value <= 69 {
        '\u{f050f}'
    } else if 70 <= value && value <= 100 {
        '\u{f10c2}'
    } else {
        '\u{f0e01}'
    }
}

impl<'a> Temperature<'a> {
    /// The module for `config`, where listing the directory that
    /// `coretemp_path` names gave `listing`. It fails where the listing holds
    /// no sensor directory.
    pub fn with_config(config: &'a MainConfig, listing: &Listing) -> (module: Result<Self, Error>)
        ensures
            resolved(module) == temp_dir(base_path(*config), *listing),
            module matches Ok(module) ==> module@.config == *config && module@.high_level
                == alert_level(*config),
    {
        let mut path = CORETEMP;
        let mut high_level = HIGH_LEVEL;
        if let Some(c) = &config.temperature {
            if let Some(v) = &c.coretemp {
                path = v.as_str();
            }
            if let Some(v) = c.high_level {
                high_level = v;
            }
        }
        match find_temp_dir(path, listing) {
            Ok(coretemp) => Ok(Temperature { coretemp, config, high_level }),
            Err(error) => Err(error),
        }
    }

    /// The character that stands for this module in a template.
    pub fn markup(&self) -> (markup: char)
        ensures
            markup == 't',
    {
        't'
    }

    /// The four files to read before a refresh, in order.
    pub fn files(&self) -> (files: Vec<String>)
        ensures
            files.deep_view() == sensor_files(self@.coretemp),
    {
        let mut files: Vec<String> = Vec::new();
        files.push(self.file("/temp2_input"));
        files.push(self.file("/temp3_input"));
        files.push(self.file("/temp4_input"));
        files.push(self.file("/temp5_input"));
        proof {
            assert(files.deep_view() =~= sensor_files(self@.coretemp));
        }
        files
    }

    /// The file `name` in the sensor's directory.
    fn file(&self, name: &str) -> (file: String)
        ensures
            file@ == self@.coretemp + name@,
    {
        let mut file = self.coretemp.clone();
        file.append(name);
        file
    }

    /// The segment for what the four files hold, where reading them gave
    /// `reads`, in the order of `files`. The first file that could not be
    /// read or does not hold an integer makes the refresh fail.
    pub fn refresh(&mut self, reads: &[Result<String, String>; 4]) -> (segment: Result<
        String,
        Error,
    >)
        ensures
            *final(self) == *old(self),
            text_view(segment) == refreshed(old(self)@, reads@),
    {
        let core_1 = match read_and_parse(self.file("/temp2_input").as_str(), &reads[0]) {
            Ok(data) => data,
            Err(error) => {
                return Err(error);
            },
        };
        let core_2 = match read_and_parse(self.file("/temp3_input").as_str(), &reads[1]) {
            Ok(data) => data,
            Err(error) => {
                return Err(error);
            },
        };
        let core_3 = match read_and_parse(self.file("/temp4_input").as_str(), &reads[2]) {
            Ok(data) => data,
            Err(error) => {
                return Err(error);
            },
        };
        let core_4 = match read_and_parse(self.file("/temp5_input").as_str(), &reads[3]) {
            Ok(data) => data,
            Err(error) => {
                return Err(error);
            },
        };
        let average = shown(core_1, core_2, core_3, core_4);
        let mut color = &self.config.default_color;
        if average as i64 >= self.high_level as i64 {
            color = &self.config.red;
        }
        let mut text = padded(average, 3);
        text.push('\u{b0}');
        text.push(' ');
        text.append(color.as_str());
        text.append(self.config.icon_font.as_str());
        text.push(icon(average));
        text.append(self.config.default_font.as_str());
        text.append(self.config.default_color.as_str());
        proof {
            assert(text@ =~= segment(average as int, self.high_level, *self.config));
        }
        Ok(text)
    }
}

} // verus!
