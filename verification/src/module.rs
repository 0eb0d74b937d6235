//! The modules of a bar, and what passes between a module and the host on
//! every tick: the module says what it needs, the host reads it, and the
//! module turns the reading into its segment.

use crate::error::text_view;
use crate::error::Error;
use crate::temperature::refreshed;
use crate::temperature::sensor_files;
use crate::temperature::Temperature;
use crate::ModuleConfig;
use vstd::prelude::*;

verus! {

/// A module of a bar. The temperature module makes its segment itself; a
/// module of any other kind is rendered by the host.
#[derive(Debug)]
pub enum Module<'a> {
    DateTime,
    Battery,
    Brightness,
    Cpu,
    Temperature(Temperature<'a>),
    Sound,
    Mic,
    Wireless,
    Memory,
}

/// What a module needs from the host before it can refresh.
#[derive(Debug, PartialEq, Eq)]
pub enum Request {
    /// The content of these files, in this order.
    Files(Vec<String>),
    /// The segment of a module of this kind.
    Render(ModuleConfig),
}

/// What the host hands to a module.
#[derive(Debug, PartialEq, Eq)]
pub enum Reading {
    /// What reading the four files of a sensor gave, in the order in which
    /// they were asked for: each the content, or the reason why the file could
    /// not be read.
    Sensor([Result<String, String>; 4]),
    /// The segment that the host rendered, or why it could not.
    Segment(Result<String, Error>),
}

/// The message of the error for a module that was handed no reading, or one
/// of another kind.
pub open spec fn unfit_message(markup: char) -> Seq<char> {
    "error while refreshing the module \""@ + seq![markup] + "\": no reading of its kind"@
}

/// Whether `request` is what `module` needs from the host: the four files
/// of its sensor for a temperature module, the segment for any other.
pub open spec fn is_request_of(request: Request, module: Module) -> bool {
    match module {
        Module::Temperature(sensor) => request matches Request::Files(files)
            && files.deep_view() == sensor_files(sensor@.coretemp),
        _ => request == Request::Render(module.kind()),
    }
}

/// What a refresh of `module` gives for `reading`.
pub open spec fn module_outcome(module: Module, reading: Reading) -> Result<Seq<char>, Seq<char>> {
    match (module, reading) {
        (Module::Temperature(sensor), Reading::Sensor(reads)) => refreshed(sensor@, reads@),
        (Module::Temperature(_), _) => Err(unfit_message(module.kind().markup())),
        (_, Reading::Segment(segment)) => text_view(segment),
        (_, _) => Err(unfit_message(module.kind().markup())),
    }
}

impl<'a> Module<'a> {
    /// The kind of this module.
    pub open spec fn spec_kind(&self) -> ModuleConfig {
        match self {
            Module::DateTime => ModuleConfig::DateTime,
            Module::Battery => ModuleConfig::Battery,
            Module::Brightness => ModuleConfig::Brightness,
            Module::Cpu => ModuleConfig::Cpu,
            Module::Temperature(_) => ModuleConfig::Temperature,
            Module::Sound => ModuleConfig::Sound,
            Module::Mic => ModuleConfig::Mic,
            Module::Wireless => ModuleConfig::Wireless,
            Module::Memory => ModuleConfig::Memory,
        }
    }

    /// The kind of this module.
    #[verifier::when_used_as_spec(spec_kind)]
    pub fn kind(&self) -> (kind: ModuleConfig)
        ensures
            kind == self.spec_kind(),
    {
        match self {
            Module::DateTime => ModuleConfig::DateTime,
            Module::Battery => ModuleConfig::Battery,
            Module::Brightness => ModuleConfig::Brightness,
            Module::Cpu => ModuleConfig::Cpu,
            Module::Temperature(_) => ModuleConfig::Temperature,
            Module::Sound => ModuleConfig::Sound,
            Module::Mic => ModuleConfig::Mic,
            Module::Wireless => ModuleConfig::Wireless,
            Module::Memory => ModuleConfig::Memory,
        }
    }

    /// The character that stands for this module in a template.
    pub fn markup(&self) -> (markup: char)
        ensures
            markup == self.kind().markup(),
    {
        self.kind().markup()
    }

    /// What this module needs from the host before it can refresh.
    pub fn request(&self) -> (request: Request)
        ensures
            is_request_of(request, *self),
    {
        match self {
            Module::Temperature(sensor) => {
                Request::Files(sensor.files())
            },
            _ => Request::Render(self.kind()),
        }
    }

    /// The segment of this module for `reading`. A module that is handed a
    /// reading of another kind fails.
    pub fn refresh(&mut self, reading: &Reading) -> (segment: Result<String, Error>)
        ensures
            *final(self) == *old(self),
            text_view(segment) == module_outcome(*old(self), *reading),
    {
        match (self, reading) {
            (Module::Temperature(sensor), Reading::Sensor(reads)) => sensor.refresh(reads),
            (Module::Temperature(_), _) => Err(unfit('t')),
            (_, Reading::Segment(Ok(text))) => Ok(text.clone()),
            (_, Reading::Segment(Err(error))) => Err(error.clone()),
            (module, _) => Err(unfit(module.markup())),
        }
    }
}

/// The error for a module that was handed no reading, or one of another kind.
pub fn unfit(markup: char) -> (error: Error)
    ensures
        error@ == unfit_message(markup),
{
    let mut message = String::new();
    message.append("error while refreshing the module \"");
    message.push(markup);
    message.append("\": no reading of its kind");
    Error::new(message)
}

} // verus!
