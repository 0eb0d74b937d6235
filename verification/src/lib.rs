//! A one-line status display, put together from a template.
//!
//! The template names the modules to show. On every tick the host reads what
//! the modules ask for, and the bar turns the readings into one line of text.

use vstd::prelude::*;

pub mod characters;
pub mod error;
pub mod markup;
pub mod module;
pub mod nl_data;
pub mod number;
pub mod temperature;
pub mod text;

use crate::error::text_view;
use crate::error::value_view;
pub use crate::error::Error;
use crate::markup::is_markup;
use crate::markup::lemma_placeholder_markers;
pub use crate::markup::parse_format;
use crate::markup::placeholders;
pub use crate::markup::FormatModule;
use crate::markup::MARKUP;
use crate::module::is_request_of;
use crate::module::module_outcome;
use crate::module::unfit;
use crate::module::unfit_message;
use crate::module::Module;
use crate::module::Reading;
use crate::module::Request;
use crate::number::kind_message;
use crate::number::message_of;
use crate::number::parse_i32;
use crate::number::parse_int;
use crate::temperature::alert_level;
use crate::temperature::base_path;
use crate::temperature::temp_dir;
use crate::temperature::Listing;
use crate::temperature::Temperature;
use crate::text::trim;
use crate::text::trimmed;
use vstd::seq_lib::lemma_flatten_concat;
use vstd::utf8::encode_utf8;

verus! {

/// The kinds of module that a bar can show.
#[derive(Debug, Clone, Copy, PartialEq, Eq, Structural)]
pub enum ModuleConfig {
    DateTime,
    Battery,
    Brightness,
    Cpu,
    Temperature,
    Sound,
    Mic,
    Wireless,
    Memory,
}

impl ModuleConfig {
    /// The character that stands for a module of this kind in a template.
    pub open spec fn spec_markup(&self) -> char {
        match self {
            ModuleConfig::DateTime => 'a',
            ModuleConfig::Battery => 'b',
            ModuleConfig::Cpu => 'c',
            ModuleConfig::Brightness => 'd',
            ModuleConfig::Mic => 'i',
            ModuleConfig::Memory => 'm',
            ModuleConfig::Sound => 's',
            ModuleConfig::Temperature => 't',
            ModuleConfig::Wireless => 'w',
        }
    }

    /// The kind of module that `markup` stands for in a template.
    pub open spec fn spec_from_markup(markup: char) -> Option<ModuleConfig> {
        if markup == 'a' {
            Some(ModuleConfig::DateTime)
        } else if markup == 'b' {
            Some(ModuleConfig::Battery)
        } else if markup == 'c' {
            Some(ModuleConfig::Cpu)
        } else if markup == 'd' {
            Some(ModuleConfig::Brightness)
        } else if markup == 'i' {
            Some(ModuleConfig::Mic)
        } else if markup == 'm' {
            Some(ModuleConfig::Memory)
        } else if markup == 's' {
            Some(ModuleConfig::Sound)
        } else if markup == 't' {
            Some(ModuleConfig::Temperature)
        } else if markup == 'w' {
            Some(ModuleConfig::Wireless)
        } else {
            None
        }
    }

    /// Whether a module of this kind needs the audio client.
    pub open spec fn spec_needs_pulse(&self) -> bool {
        *self == ModuleConfig::Sound || *self == ModuleConfig::Mic
    }

    /// The character that stands for a module of this kind in a template.
    #[verifier::when_used_as_spec(spec_markup)]
    pub fn markup(&self) -> (markup: char)
        ensures
            markup == self.spec_markup(),
    {
        match self {
            ModuleConfig::DateTime => 'a',
            ModuleConfig::Battery => 'b',
            ModuleConfig::Cpu => 'c',
            ModuleConfig::Brightness => 'd',
            ModuleConfig::Mic => 'i',
            ModuleConfig::Memory => 'm',
            ModuleConfig::Sound => 's',
            ModuleConfig::Temperature => 't',
            ModuleConfig::Wireless => 'w',
        }
    }

    /// The kind of module that `markup` stands for in a template.
    #[verifier::when_used_as_spec(spec_from_markup)]
    pub fn from_markup(markup: char) -> (kind: Option<ModuleConfig>)
        ensures
            kind == ModuleConfig::spec_from_markup(markup),
    {
        match markup {
            'a' => Some(ModuleConfig::DateTime),
            'b' => Some(ModuleConfig::Battery),
            'c' => Some(ModuleConfig::Cpu),
            'd' => Some(ModuleConfig::Brightness),
            'i' => Some(ModuleConfig::Mic),
            'm' => Some(ModuleConfig::Memory),
            's' => Some(ModuleConfig::Sound),
            't' => Some(ModuleConfig::Temperature),
            'w' => Some(ModuleConfig::Wireless),
            _ => None,
        }
    }

    /// Whether a module of this kind needs the audio client.
    #[verifier::when_used_as_spec(spec_needs_pulse)]
    pub fn needs_pulse(&self) -> (needed: bool)
        ensures
            needed == self.spec_needs_pulse(),
    {
        match self {
            ModuleConfig::Sound => true,
            ModuleConfig::Mic => true,
            _ => false,
        }
    }
}

/// The characters that name a module are those that stand for a kind, and a
/// kind is found again from its character.
pub proof fn lemma_markup_names_kind(markup: char, kind: ModuleConfig)
    ensures
        is_markup(markup) <==> ModuleConfig::from_markup(markup) is Some,
        ModuleConfig::from_markup(markup) matches Some(found) ==> found.markup() == markup,
        ModuleConfig::from_markup(kind.markup()) == Some(kind),
{
    assert(MARKUP@[0] == 'a' && MARKUP@[1] == 'b' && MARKUP@[2] == 'c' && MARKUP@[3] == 'd'
        && MARKUP@[4] == 'm' && MARKUP@[5] == 'i' && MARKUP@[6] == 's' && MARKUP@[7] == 't'
        && MARKUP@[8] == 'w');
}

/// The configuration of a bar. It is read once and never changed; every
/// module of the bar shares it.
#[derive(Debug, PartialEq)]
pub struct Config {
    /// The template.
    pub bar: String,
    /// The time between two ticks, in milliseconds.
    pub tick: Option<u32>,
    /// The text that switches to the font of ordinary text.
    pub default_font: String,
    /// The text that switches to the font of the icons.
    pub icon_font: String,
    /// The text that switches to the ordinary colour.
    pub default_color: String,
    /// The text that switches to the colour of an alert.
    pub red: String,
    /// The text that switches to the colour of a good state.
    pub green: String,
    /// The index of the audio sink.
    pub sink: Option<u32>,
    /// The index of the audio source.
    pub source: Option<u32>,
    /// The modules that the configuration lists. The template alone decides
    /// which modules a bar holds and in which order; this list decides nothing.
    pub modules: Vec<ModuleConfig>,
    /// The time between two readings of the processor load, in milliseconds.
    pub cpu_tick: Option<u32>,
    /// The time between two calls of the wireless helper, in milliseconds.
    pub wireless_tick: Option<u32>,
    /// The time between two questions to the audio client, in milliseconds.
    pub pulse_tick: Option<u32>,
    /// The file that holds the processor's counters.
    pub proc_stat: Option<String>,
    /// The file that holds the state of the memory.
    pub proc_meminfo: Option<String>,
    /// The file that holds the charge of the battery.
    pub energy_now: Option<String>,
    /// The file that says whether the battery is charging.
    pub power_status: Option<String>,
    /// The file that holds the charge of the battery when it is full.
    pub energy_full_design: Option<String>,
    /// A sensor directory named at the top of the configuration. The
    /// temperature module goes by `temperature`, not by this.
    pub coretemp: Option<String>,
    /// The directory that holds the brightness of the screen.
    pub backlight: Option<String>,
    /// What the temperature module takes in place of its defaults.
    pub temperature: Option<temperature::Config>,
}

/// The message of the error for a file that could not be read.
pub open spec fn reading_message(file: Seq<char>, reason: Seq<char>) -> Seq<char> {
    "error while reading the file \""@ + file + "\": "@ + reason
}

/// The message of the error for a file that does not hold an integer.
pub open spec fn parsing_message(file: Seq<char>, reason: Seq<char>) -> Seq<char> {
    "error while parsing the file \""@ + file + "\": "@ + reason
}

/// What `read_and_trim` gives for `file`, where reading it gave `read`: the
/// text without the whitespace around it, or the message of the error.
pub open spec fn trimmed_read(file: Seq<char>, read: Result<String, String>) -> Result<
    Seq<char>,
    Seq<char>,
> {
    match read {
        Ok(content) => Ok(trimmed(content@)),
        Err(reason) => Err(reading_message(file, reason@)),
    }
}

/// What `read_and_parse` gives for `file`, where reading it gave `read`: the
/// integer that the file holds, or the message of the error.
pub open spec fn parsed_read(file: Seq<char>, read: Result<String, String>) -> Result<
    i32,
    Seq<char>,
> {
    match trimmed_read(file, read) {
        Ok(content) => match parse_int(content) {
            Ok(data) => Ok(data),
            Err(kind) => Err(parsing_message(file, kind_message(kind))),
        },
        Err(message) => Err(message),
    }
}

/// The text of `file` without the whitespace around it, where reading the
/// file gave `read`: its content, or the reason why it could not be read.
pub fn read_and_trim(file: &str, read: &Result<String, String>) -> (content: Result<
    String,
    Error,
>)
    ensures
        text_view(content) == trimmed_read(file@, *read),
{
    match read {
        Ok(content) => Ok(trim(content.as_str())),
        Err(reason) => {
            let mut message = String::new();
            message.append("error while reading the file \"");
            message.append(file);
            message.append("\": ");
            message.append(reason.as_str());
            Err(Error::new(message))
        },
    }
}

/// The integer that `file` holds, where reading the file gave `read`: its
/// content, or the reason why it could not be read.
pub fn read_and_parse(file: &str, read: &Result<String, String>) -> (data: Result<i32, Error>)
    ensures
        value_view(data) == parsed_read(file@, *read),
{
    let content = match read_and_trim(file, read) {
        Ok(content) => content,
        Err(error) => {
            return Err(error);
        },
    };
    match parse_i32(content.as_str()) {
        Ok(data) => Ok(data),
        Err(kind) => {
            let mut message = String::new();
            message.append("error while parsing the file \"");
            message.append(file);
            message.append("\": ");
            message.append(message_of(kind));
            Err(Error::new(message))
        },
    }
}

/// The text shown in place of the segment of a module that failed.
pub const FAILED: &'static str = "?";

/// A bar: the modules that its template asks for, from left to right.
#[derive(Debug)]
pub struct Bar<'a> {
    modules: Vec<Module<'a>>,
    format: String,
}

/// The failure of one module during a tick.
#[derive(Debug, PartialEq, Eq)]
pub struct Failure {
    /// The place of the module in the bar, counted from 0.
    pub index: usize,
    /// The character that stands for the module in a template.
    pub markup: char,
    /// Why the module failed.
    pub error: Error,
}

/// What a failure says.
pub struct FailureView {
    pub index: int,
    pub markup: char,
    pub message: Seq<char>,
}

impl View for Failure {
    type V = FailureView;

    open spec fn view(&self) -> FailureView {
        FailureView { index: self.index as int, markup: self.markup, message: self.error@ }
    }
}

/// What one tick gave.
#[derive(Debug, PartialEq, Eq)]
pub struct Update {
    /// The line to show: the segments of all modules, from left to right.
    pub line: String,
    /// The modules that failed, from left to right.
    pub failures: Vec<Failure>,
}

/// What one tick says.
pub struct UpdateView {
    pub line: Seq<char>,
    pub failures: Seq<FailureView>,
}

impl View for Update {
    type V = UpdateView;

    open spec fn view(&self) -> UpdateView {
        UpdateView {
            line: self.line@,
            failures: self.failures@.map_values(|failure: Failure| failure@),
        }
    }
}

/// The kind of module that the placeholder `found` asks for.
pub open spec fn kind_asked(found: FormatModule) -> ModuleConfig {
    ModuleConfig::from_markup(found.0).unwrap()
}

/// The kinds of module that `template` asks for, from left to right.
pub open spec fn asked(template: Seq<u8>) -> Seq<ModuleConfig> {
    placeholders(template).map_values(|found: FormatModule| kind_asked(found))
}

/// Whether `template` asks for a module that needs the audio client.
pub open spec fn asks_for_pulse(template: Seq<u8>) -> bool {
    exists|k: int| 0 <= k < asked(template).len() && (#[trigger] asked(template)[k]).needs_pulse()
}

/// Whether `module` is the module of kind `kind` of a bar with `config`,
/// where the sensor's directory is `dir`.
pub open spec fn is_built(module: Module, kind: ModuleConfig, config: Config, dir: Seq<char>) -> bool {
    &&& module.kind() == kind
    &&& module matches Module::Temperature(sensor) ==> {
        &&& sensor@.coretemp == dir
        &&& sensor@.config == config
        &&& sensor@.high_level == alert_level(config)
    }
}

/// What the refresh of the module at `k` gives, where the host hands
/// `readings` to the bar: the module takes the reading at its own place, and
/// fails where there is none.
pub open spec fn outcome_at(modules: Seq<Module>, readings: Seq<Reading>, k: int) -> Result<
    Seq<char>,
    Seq<char>,
> {
    if k < readings.len() {
        module_outcome(modules[k], readings[k])
    } else {
        Err(unfit_message(modules[k].kind().markup()))
    }
}

/// What the refresh of each module gives, where the host hands `readings`
/// to the bar.
pub open spec fn outcomes(modules: Seq<Module>, readings: Seq<Reading>) -> Seq<
    Result<Seq<char>, Seq<char>>,
> {
    Seq::new(modules.len(), |k: int| outcome_at(modules, readings, k))
}

/// The text shown for a module whose refresh gave `outcome`.
pub open spec fn shown_segment(outcome: Result<Seq<char>, Seq<char>>) -> Seq<char> {
    match outcome {
        Ok(text) => text,
        Err(_) => FAILED@,
    }
}

/// The line for `outcomes`: what is shown for each, one after the other.
pub open spec fn line_of(outcomes: Seq<Result<Seq<char>, Seq<char>>>) -> Seq<char> {
    outcomes.map_values(|outcome: Result<Seq<char>, Seq<char>>| shown_segment(outcome)).flatten()
}

/// The places of `outcomes`, in ascending order.
pub open spec fn places(outcomes: Seq<Result<Seq<char>, Seq<char>>>) -> Seq<int> {
    Seq::new(outcomes.len(), |k: int| k)
}

/// Whether the outcome at a place is a failure, as a predicate on places.
pub open spec fn failing(outcomes: Seq<Result<Seq<char>, Seq<char>>>) -> spec_fn(int) -> bool {
    |k: int| outcomes[k] is Err
}

/// The failure at a place, as a function of the place.
pub open spec fn failure_at(
    modules: Seq<Module>,
    outcomes: Seq<Result<Seq<char>, Seq<char>>>,
) -> spec_fn(int) -> FailureView {
    |k: int|
        FailureView {
            index: k,
            markup: modules[k].kind().markup(),
            message: outcomes[k]->Err_0,
        }
}

/// The failures among `outcomes`, from left to right.
pub open spec fn failures_of(
    modules: Seq<Module>,
    outcomes: Seq<Result<Seq<char>, Seq<char>>>,
) -> Seq<FailureView> {
    places(outcomes).filter(failing(outcomes)).map_values(failure_at(modules, outcomes))
}

/// What a tick gives for `modules`, where the host hands `readings` to the
/// bar: the line, and the failures from left to right.
pub open spec fn tick_of(modules: Seq<Module>, readings: Seq<Reading>) -> UpdateView {
    UpdateView {
        line: line_of(outcomes(modules, readings)),
        failures: failures_of(modules, outcomes(modules, readings)),
    }
}

/// Why no bar is made for `config`, where listing the sensor's base
/// directory gave `listing`: the template asks for a temperature module, and
/// the listing holds no sensor directory. `None` where a bar is made.
pub open spec fn refusal(config: Config, listing: Listing) -> Option<Seq<char>> {
    if asked(encode_utf8(config.bar@)).contains(ModuleConfig::Temperature) {
        match temp_dir(base_path(config), listing) {
            Ok(_) => None,
            Err(message) => Some(message),
        }
    } else {
        None
    }
}

impl<'a> Bar<'a> {
    /// The modules of this bar, from left to right.
    pub closed spec fn modules(&self) -> Seq<Module<'a>> {
        self.modules@
    }

    /// The template that this bar was made from.
    pub closed spec fn format(&self) -> Seq<char> {
        self.format@
    }

    /// Whether this is the bar for `config`, where listing the sensor's
    /// base directory gave `listing`: it keeps the template, and holds one
    /// module for each placeholder of the template, in the order of the
    /// template, each of the kind that the placeholder names.
    pub open spec fn is_bar_for(&self, config: Config, listing: Listing) -> bool {
        &&& self.format() == config.bar@
        &&& self.modules().len() == asked(encode_utf8(config.bar@)).len()
        &&& forall|k: int|
            0 <= k < self.modules().len() ==> is_built(
                #[trigger] self.modules()[k],
                asked(encode_utf8(config.bar@))[k],
                config,
                temp_dir(base_path(config), listing)->Ok_0,
            )
    }

    /// The bar for `config`: one module for each placeholder of the
    /// template, in the order of the template.
    ///
    /// `pulse` says whether the audio client is there, and `listing` is what
    /// listing the directory that `coretemp_path` names gave. A template
    /// that asks for a temperature module gives no bar where the listing
    /// holds no sensor directory.
    pub fn with_config(config: &'a Config, pulse: bool, listing: &Listing) -> (bar: Result<
        Self,
        Error,
    >)
        requires
            pulse || !asks_for_pulse(encode_utf8(config.bar@)),
        ensures
            match bar {
                Ok(bar) => refusal(*config, *listing) is None && bar.is_bar_for(
                    *config,
                    *listing,
                ),
                Err(error) => refusal(*config, *listing) == Some(error@),
            },
    {
        let format_modules = parse_format(config.bar.as_str());
        let ghost template = encode_utf8(config.bar@);
        let ghost dir = temp_dir(base_path(*config), *listing);
        let mut modules: Vec<Module<'a>> = Vec::new();
        let mut k: usize = 0;
        while k < format_modules.len()
            invariant
                k <= format_modules.len(),
                template == encode_utf8(config.bar@),
                format_modules@ == placeholders(template),
                dir == temp_dir(base_path(*config), *listing),
                pulse || !asks_for_pulse(template),
                modules.len() == k,
                forall|j: int|
                    0 <= j < k ==> is_built(
                        #[trigger] modules[j],
                        asked(template)[j],
                        *config,
                        dir->Ok_0,
                    ),
                forall|j: int|
                    0 <= j < k && asked(template)[j] == ModuleConfig::Temperature ==> dir is Ok,
            decreases format_modules.len() - k,
        {
            let markup = format_modules[k].0;
            let kind = ModuleConfig::from_markup(markup);
            proof {
                assert(asked(template)[k as int] == kind_asked(format_modules[k as int]));
            }
            let module = match kind {
                Some(ModuleConfig::DateTime) => Module::DateTime,
                Some(ModuleConfig::Battery) => Module::Battery,
                Some(ModuleConfig::Brightness) => Module::Brightness,
                Some(ModuleConfig::Cpu) => Module::Cpu,
                Some(ModuleConfig::Memory) => Module::Memory,
                Some(ModuleConfig::Wireless) => Module::Wireless,
                Some(ModuleConfig::Sound) => Module::Sound,
                Some(ModuleConfig::Mic) => Module::Mic,
                Some(ModuleConfig::Temperature) => match Temperature::with_config(
                    config,
                    listing,
                ) {
                    Ok(sensor) => Module::Temperature(sensor),
                    Err(error) => {
                        proof {
                            assert(asked(template)[k as int] == ModuleConfig::Temperature);
                        }
                        return Err(error);
                    },
                },
                None => {
                    assert(false) by {
                        lemma_asked_kinds(template);
                    }
                    Module::DateTime
                },
            };
            modules.push(module);
            k += 1;
        }
        Ok(Bar { modules, format: config.bar.clone() })
    }

    /// The template that this bar was made from.
    pub fn template(&self) -> (template: &str)
        ensures
            template@ == self.format(),
    {
        self.format.as_str()
    }

    /// How many modules this bar holds.
    pub fn len(&self) -> (len: usize)
        ensures
            len == self.modules().len(),
    {
        self.modules.len()
    }

    /// What the modules need from the host before the next tick, from left
    /// to right.
    pub fn requests(&self) -> (requests: Vec<Request>)
        ensures
            requests.len() == self.modules().len(),
            forall|k: int|
                0 <= k < requests.len() ==> is_request_of(
                    #[trigger] requests[k],
                    self.modules()[k],
                ),
    {
        let mut requests: Vec<Request> = Vec::new();
        let mut k: usize = 0;
        while k < self.modules.len()
            invariant
                k <= self.modules.len(),
                requests.len() == k,
                forall|j: int|
                    0 <= j < k ==> is_request_of(#[trigger] requests[j], self.modules@[j]),
            decreases self.modules.len() - k,
        {
            requests.push(self.modules[k].request());
            k += 1;
        }
        requests
    }

    /// One tick: every module is refreshed with the reading at its own place
    /// in `readings`, from left to right, and the segments make the line.
    ///
    /// A module that fails, or that has no reading, is reported among the
    /// failures and shows `FAILED`; the modules after it are refreshed all
    /// the same. The bar itself is left as it was.
    pub fn update(&mut self, readings: &Vec<Reading>) -> (update: Update)
        ensures
            final(self).modules() == old(self).modules(),
            final(self).format() == old(self).format(),
            update@ == tick_of(old(self).modules(), readings@),
    {
        let ghost modules = self.modules@;
        let ghost all = outcomes(modules, readings@);
        let mut line = String::new();
        let mut failures: Vec<Failure> = Vec::new();
        let mut k: usize = 0;
        proof {
            reveal(Seq::filter);
            assert(all.take(0).map_values(
                |outcome: Result<Seq<char>, Seq<char>>| shown_segment(outcome),
            ) == Seq::<Seq<char>>::empty());
            assert(places(all).take(0).filter(failing(all)).map_values(failure_at(modules, all))
                == Seq::<FailureView>::empty());
            assert(failures@.map_values(|failure: Failure| failure@) == Seq::<
                FailureView,
            >::empty());
        }
        while k < self.modules.len()
            invariant
                k <= self.modules.len(),
                self.modules@ == modules,
                self.format@ == old(self).format@,
                all == outcomes(modules, readings@),
                line@ == all.take(k as int).map_values(
                    |outcome: Result<Seq<char>, Seq<char>>| shown_segment(outcome),
                ).flatten(),
                failures@.map_values(|failure: Failure| failure@) == places(all).take(
                    k as int,
                ).filter(failing(all)).map_values(failure_at(modules, all)),
            decreases self.modules.len() - k,
        {
            let markup = self.modules[k].markup();
            let segment = if k < readings.len() {
                self.modules[k].refresh(&readings[k])
            } else {
                Err(unfit(markup))
            };
            proof {
                assert(text_view(segment) == all[k as int]);
                let shown = |outcome: Result<Seq<char>, Seq<char>>| shown_segment(outcome);
                assert(all.take(k + 1).map_values(shown) == all.take(k as int).map_values(
                    shown,
                ).push(shown_segment(all[k as int])));
                Seq::lemma_flatten_push(
                    all.take(k as int).map_values(shown),
                    shown_segment(all[k as int]),
                );
                let earlier = places(all).take(k as int);
                assert(places(all).take(k + 1) == earlier.push(k as int));
                Seq::lemma_filter_push(earlier, k as int, failing(all));
            }
            match segment {
                Ok(text) => {
                    line.append(text.as_str());
                },
                Err(error) => {
                    line.append(FAILED);
                    let ghost before = failures@;
                    let failure = Failure { index: k, markup, error };
                    failures.push(failure);
                    proof {
                        let earlier = places(all).take(k as int);
                        let view = |failure: Failure| failure@;
                        assert(failure@ == failure_at(modules, all)(k as int));
                        assert(failures@.map_values(view) == before.map_values(view).push(
                            failure@,
                        ));
                        assert(earlier.filter(failing(all)).push(k as int).map_values(
                            failure_at(modules, all),
                        ) == earlier.filter(failing(all)).map_values(
                            failure_at(modules, all),
                        ).push(failure_at(modules, all)(k as int)));
                    }
                },
            }
            k += 1;
        }
        proof {
            assert(all.take(k as int) == all);
            assert(places(all).take(k as int) == places(all));
        }
        Update { line, failures }
    }
}

/// The kinds of module that a bar holds, and their order, follow from the
/// template alone: two configurations with one template ask for the same
/// modules, whatever else they hold, and each module is the one that the
/// placeholder at its place names.
pub proof fn lemma_template_decides(first: Config, second: Config)
    requires
        first.bar@ == second.bar@,
    ensures
        asked(encode_utf8(first.bar@)) == asked(encode_utf8(second.bar@)),
        asked(encode_utf8(first.bar@)).len() == placeholders(encode_utf8(first.bar@)).len(),
        forall|k: int|
            0 <= k < asked(encode_utf8(first.bar@)).len() ==> (#[trigger] asked(
                encode_utf8(first.bar@),
            )[k]).markup() == placeholders(encode_utf8(first.bar@))[k].0,
{
    let template = encode_utf8(first.bar@);
    lemma_asked_kinds(template);
    assert forall|k: int| 0 <= k < asked(template).len() implies (#[trigger] asked(
        template,
    )[k]).markup() == placeholders(template)[k].0 by {
        lemma_markup_names_kind(placeholders(template)[k].0, ModuleConfig::DateTime);
    }
}

/// The line holds what every module shows, in full and at its place: after
/// what the modules to its left show and before what the modules to its
/// right show, whether those failed or not.
pub proof fn lemma_line_in_order(outcomes: Seq<Result<Seq<char>, Seq<char>>>, k: int)
    requires
        0 <= k < outcomes.len(),
    ensures
        line_of(outcomes) == line_of(outcomes.take(k)) + shown_segment(outcomes[k]) + line_of(
            outcomes.skip(k + 1),
        ),
{
    let shown = |outcome: Result<Seq<char>, Seq<char>>| shown_segment(outcome);
    let left = outcomes.take(k).map_values(shown);
    let here = seq![shown_segment(outcomes[k])];
    let right = outcomes.skip(k + 1).map_values(shown);
    assert(outcomes.map_values(shown) == left + here + right);
    lemma_flatten_concat(left + here, right);
    lemma_flatten_concat(left, here);
    here.lemma_flatten_one_element();
}

/// What a module shows depends on the module and on its own reading alone:
/// two ticks that hand it the same reading give it the same outcome, whatever
/// the other modules are handed and whether they fail.
pub proof fn lemma_outcome_is_local(
    modules: Seq<Module>,
    first: Seq<Reading>,
    second: Seq<Reading>,
    k: int,
)
    requires
        0 <= k < modules.len(),
        k < first.len() <==> k < second.len(),
        k < first.len() ==> first[k] == second[k],
    ensures
        outcomes(modules, first)[k] == outcomes(modules, second)[k],
        outcomes(modules, first).len() == modules.len(),
{
}

/// Every placeholder of a template names a kind of module.
pub proof fn lemma_asked_kinds(template: Seq<u8>)
    ensures
        forall|k: int|
            0 <= k < placeholders(template).len() ==> ModuleConfig::from_markup(
                (#[trigger] placeholders(template)[k]).0,
            ) == Some(asked(template)[k]),
{
    lemma_placeholder_markers(template);
    assert forall|k: int| 0 <= k < placeholders(template).len() implies ModuleConfig::from_markup(
        (#[trigger] placeholders(template)[k]).0,
    ) == Some(asked(template)[k]) by {
        lemma_markup_names_kind(placeholders(template)[k].0, ModuleConfig::DateTime);
    }
}

} // verus!
