//! Choosing a driver before a session starts: which API family, which
//! installed device, and what to tell the operator when a launch fails.
//!
//! Finding the installed drivers and loading one are the caller's business;
//! the launcher is given the list and told how a load went: a failure is put
//! on display, and a launch that went well takes the last failure off it.

use vstd::prelude::*;
use vstd::string::StringExecFns;

verus! {

/// Driver API family.
#[allow(non_camel_case_types)]
#[derive(Debug, Clone, Copy, PartialEq, Eq, Structural)]
pub enum API {
    D_PDU,
    Passthru,
}

/// What the operator did in the launcher.
#[derive(Debug)]
pub enum LauncherMessage {
    SwitchAPI(API),
    DeviceSelected(String),
    LaunchRequested,
}

impl Clone for LauncherMessage {
    fn clone(&self) -> (copy: LauncherMessage)
        ensures
            match (*self, copy) {
                (LauncherMessage::SwitchAPI(a), LauncherMessage::SwitchAPI(b)) => a == b,
                (LauncherMessage::DeviceSelected(a), LauncherMessage::DeviceSelected(b)) => a@
                    == b@,
                (LauncherMessage::LaunchRequested, LauncherMessage::LaunchRequested) => true,
                _ => false,
            },
    {
        match self {
            LauncherMessage::SwitchAPI(api) => LauncherMessage::SwitchAPI(*api),
            LauncherMessage::DeviceSelected(name) => LauncherMessage::DeviceSelected(name.clone()),
            LauncherMessage::LaunchRequested => LauncherMessage::LaunchRequested,
        }
    }
}

/// An installed driver, as the host's driver list describes it.
#[derive(Debug)]
pub struct DriverDescriptor {
    pub name: String,
    pub library_path: String,
}

impl Clone for DriverDescriptor {
    fn clone(&self) -> (copy: DriverDescriptor)
        ensures
            copy@ == self@,
    {
        DriverDescriptor { name: self.name.clone(), library_path: self.library_path.clone() }
    }
}

/// Mathematical value of a [`DriverDescriptor`].
pub struct DriverView {
    pub name: Seq<char>,
    pub library_path: Seq<char>,
}

impl View for DriverDescriptor {
    type V = DriverView;

    open spec fn view(&self) -> DriverView {
        DriverView { name: self.name@, library_path: self.library_path@ }
    }
}

/// Why a driver library could not be loaded.
#[derive(Debug, Clone, Copy, PartialEq, Eq, Structural)]
pub enum DriverLoadError {
    LibraryNotFound,
    SymbolMissing,
    IncompatibleVersion,
}

/// An error of the communication layer: a code and what it means.
#[derive(Debug)]
pub struct ComServerError {
    pub err_code: u32,
    pub err_desc: String,
}

/// An error that stops a launch.
#[derive(Debug)]
pub enum ApplicationError {
    DriverError(ComServerError),
}

/// Error code of every failure to get hold of a driver.
pub const DRIVER_ERROR_CODE: u32 = 99;

impl ApplicationError {
    /// The error's code.
    pub open spec fn code(self) -> u32 {
        match self {
            ApplicationError::DriverError(error) => error.err_code,
        }
    }

    /// The error's description.
    pub open spec fn description(self) -> Seq<char> {
        match self {
            ApplicationError::DriverError(error) => error.err_desc@,
        }
    }

    /// The text shown to the operator: the description.
    pub fn to_string(&self) -> (text: String)
        ensures
            text@ == self.description(),
    {
        match self {
            ApplicationError::DriverError(error) => error.err_desc.clone(),
        }
    }
}

/// What a failed load is reported as: the kind of failure with the driver's
/// name and path.
pub open spec fn load_failure_text(error: DriverLoadError, driver: DriverView) -> Seq<char> {
    match error {
        DriverLoadError::LibraryNotFound => "Cannot locate driver "@ + driver.name + " at "@
            + driver.library_path,
        DriverLoadError::SymbolMissing => "Driver "@ + driver.name + " at "@ + driver.library_path
            + " lacks a required function"@,
        DriverLoadError::IncompatibleVersion => "Driver "@ + driver.name + " at "@
            + driver.library_path + " has an incompatible version"@,
    }
}

/// Describes a failed load.
pub fn describe_load_failure(error: DriverLoadError, driver: &DriverDescriptor) -> (failure:
    ApplicationError)
    ensures
        failure.code() == DRIVER_ERROR_CODE,
        failure.description() == load_failure_text(error, driver@),
{
    let mut text = match error {
        DriverLoadError::LibraryNotFound => String::from_str("Cannot locate driver "),
        _ => String::from_str("Driver "),
    };
    text.append(driver.name.as_str());
    text.append(" at ");
    text.append(driver.library_path.as_str());
    match error {
        DriverLoadError::LibraryNotFound => {},
        DriverLoadError::SymbolMissing => {
            text.append(" lacks a required function");
        },
        DriverLoadError::IncompatibleVersion => {
            text.append(" has an incompatible version");
        },
    }
    ApplicationError::DriverError(ComServerError { err_code: DRIVER_ERROR_CODE, err_desc: text })
}

/// What the launcher shows.
#[derive(Debug, Clone, Copy, PartialEq, Eq, Structural)]
pub enum LauncherScreen {
    /// The notice that the D-PDU API is not implemented.
    DpduUnimplemented,
    /// The notice that no Passthru device was found.
    NoDevices,
    /// The list of devices with the launch button and the status text.
    DevicePicker,
}

/// What the caller has to do after a message.
#[derive(Debug, Clone, Copy, PartialEq, Eq, Structural)]
pub enum LaunchAction {
    /// Nothing.
    Nothing,
    /// Load the driver library of the device at this place of the list, and
    /// report a failure back.
    LoadDriver { device: usize },
    /// The selected API family cannot be launched. The status text says so.
    NotImplemented,
}

/// Mathematical value of a [`Launcher`].
pub struct LauncherView {
    pub devices: Seq<DriverView>,
    pub selected_passthru: Seq<char>,
    pub selected_dpdu: Seq<char>,
    pub api: API,
    pub status_text: Seq<char>,
}

/// The values of a list of descriptors.
pub open spec fn driver_views(devices: Seq<DriverDescriptor>) -> Seq<DriverView> {
    devices.map_values(|device: DriverDescriptor| device@)
}

/// Whether `at` is the first place in `devices` of a device called `name`.
pub open spec fn first_named(devices: Seq<DriverView>, name: Seq<char>, at: int) -> bool {
    &&& 0 <= at < devices.len()
    &&& devices[at].name == name
    &&& forall|j: int| 0 <= j < at ==> (#[trigger] devices[j]).name != name
}

/// Whether some device in `devices` is called `name`.
pub open spec fn has_named(devices: Seq<DriverView>, name: Seq<char>) -> bool {
    exists|j: int| 0 <= j < devices.len() && (#[trigger] devices[j]).name == name
}

impl LauncherView {
    /// The launcher as it opens on a list of devices: Passthru, the first
    /// device selected if there is one, nothing to report.
    pub open spec fn initial(devices: Seq<DriverView>) -> LauncherView {
        LauncherView {
            devices,
            selected_passthru: if devices.len() > 0 {
                devices[0].name
            } else {
                Seq::empty()
            },
            selected_dpdu: Seq::empty(),
            api: API::Passthru,
            status_text: Seq::empty(),
        }
    }

    /// What is shown.
    pub open spec fn screen(self) -> LauncherScreen {
        if self.api == API::D_PDU {
            LauncherScreen::DpduUnimplemented
        } else if self.selected_passthru.len() == 0 {
            LauncherScreen::NoDevices
        } else {
            LauncherScreen::DevicePicker
        }
    }

    /// The names of the devices, in the order of the list.
    pub open spec fn device_names(self) -> Seq<Seq<char>> {
        self.devices.map_values(|device: DriverView| device.name)
    }

    /// The launcher after the API family was switched.
    pub open spec fn with_api(self, api: API) -> LauncherView {
        LauncherView { api, ..self }
    }

    /// The launcher after a device was picked: it is the selection of the API
    /// family on show.
    pub open spec fn with_selection(self, name: Seq<char>) -> LauncherView {
        if self.api == API::Passthru {
            LauncherView { selected_passthru: name, ..self }
        } else {
            LauncherView { selected_dpdu: name, ..self }
        }
    }

    /// Whether a launch request finds its device.
    pub open spec fn can_launch(self) -> bool {
        self.api == API::Passthru && has_named(self.devices, self.selected_passthru)
    }

    /// The launcher after a launch request. A request that is refused on the
    /// spot leaves the reason in the status text, in place of whatever stood
    /// there: that the API family is not implemented, or that the Passthru
    /// selection is not in the list. A request that finds its device changes
    /// nothing; how the load goes decides the text.
    pub open spec fn after_launch_request(self) -> LauncherView {
        if self.api != API::Passthru {
            LauncherView { status_text: not_implemented_text(), ..self }
        } else if !has_named(self.devices, self.selected_passthru) {
            LauncherView { status_text: unknown_device_text(), ..self }
        } else {
            self
        }
    }

    /// The launcher after a message.
    pub open spec fn after(self, msg: LauncherMessage) -> LauncherView {
        match msg {
            LauncherMessage::SwitchAPI(api) => self.with_api(api),
            LauncherMessage::DeviceSelected(name) => self.with_selection(name@),
            LauncherMessage::LaunchRequested => self.after_launch_request(),
        }
    }

    /// Whether `action` is what a message asks of the caller: only a launch
    /// request asks for anything.
    pub open spec fn asks(self, msg: LauncherMessage, action: LaunchAction) -> bool {
        match msg {
            LauncherMessage::LaunchRequested => self.launches(action),
            _ => action == LaunchAction::Nothing,
        }
    }

    /// The launcher after a launch went well: driver loaded and device
    /// opened. Whatever an earlier launch left to read is gone.
    pub open spec fn after_launch_success(self) -> LauncherView {
        LauncherView { status_text: Seq::empty(), ..self }
    }

    /// Whether `action` is what a launch request asks of the caller: for
    /// Passthru the driver of the selected device, if it is in the list; for
    /// D-PDU the word that it is not implemented.
    pub open spec fn launches(self, action: LaunchAction) -> bool {
        if self.api != API::Passthru {
            action == LaunchAction::NotImplemented
        } else if has_named(self.devices, self.selected_passthru) {
            action is LoadDriver && first_named(
                self.devices,
                self.selected_passthru,
                action->device as int,
            )
        } else {
            action == LaunchAction::Nothing
        }
    }
}

/// Text of the error for a launch under an API family that is not
/// implemented.
pub open spec fn not_implemented_text() -> Seq<char> {
    "D-PDU API is unimplemented, check back in a future release!"@
}

/// Text of the error for a selected device that is not in the list.
pub open spec fn unknown_device_text() -> Seq<char> {
    "WTF. Located device is not valid??"@
}

/// Driver selection state.
#[derive(Debug)]
pub struct Launcher {
    device_list_passthru: Vec<DriverDescriptor>,
    selected_device_passthru: String,
    selected_device_dpdu: String,
    api_selection: API,
    status_text: String,
}

impl Launcher {
    /// The launcher's mathematical value.
    pub closed spec fn model(&self) -> LauncherView {
        LauncherView {
            devices: driver_views(self.device_list_passthru@),
            selected_passthru: self.selected_device_passthru@,
            selected_dpdu: self.selected_device_dpdu@,
            api: self.api_selection,
            status_text: self.status_text@,
        }
    }
}

impl Clone for Launcher {
    fn clone(&self) -> (copy: Launcher)
        ensures
            copy.model() == self.model(),
    {
        let mut devices: Vec<DriverDescriptor> = Vec::new();
        let mut i: usize = 0;
        while i < self.device_list_passthru.len()
            invariant
                i <= self.device_list_passthru@.len(),
                devices@.len() == i,
                forall|j: int|
                    0 <= j < i ==> (#[trigger] devices@[j])@ == self.device_list_passthru@[j]@,
            decreases self.device_list_passthru@.len() - i,
        {
            devices.push(self.device_list_passthru[i].clone());
            i += 1;
        }
        assert(driver_views(devices@) =~= driver_views(self.device_list_passthru@));
        Launcher {
            device_list_passthru: devices,
            selected_device_passthru: self.selected_device_passthru.clone(),
            selected_device_dpdu: self.selected_device_dpdu.clone(),
            api_selection: self.api_selection,
            status_text: self.status_text.clone(),
        }
    }
}

impl Launcher {
    /// Opens the launcher on the installed Passthru devices.
    pub fn new(devices: Vec<DriverDescriptor>) -> (launcher: Launcher)
        ensures
            launcher.model() == LauncherView::initial(driver_views(devices@)),
    {
        let selected = if devices.len() > 0 {
            devices[0].name.clone()
        } else {
            String::new()
        };
        Launcher {
            device_list_passthru: devices,
            selected_device_passthru: selected,
            selected_device_dpdu: String::new(),
            api_selection: API::Passthru,
            status_text: String::new(),
        }
    }

    /// Finds the selected Passthru device: the first one in the list with the
    /// selected name.
    pub fn get_device_passthru(&self) -> (found: Result<usize, ApplicationError>)
        ensures
            match found {
                Ok(at) => first_named(
                    self.model().devices,
                    self.model().selected_passthru,
                    at as int,
                ),
                Err(error) => !has_named(self.model().devices, self.model().selected_passthru)
                    && error.code() == DRIVER_ERROR_CODE && error.description()
                    == unknown_device_text(),
            },
    {
        let mut i: usize = 0;
        while i < self.device_list_passthru.len()
            invariant
                i <= self.device_list_passthru@.len(),
                forall|j: int|
                    0 <= j < i ==> (#[trigger] self.device_list_passthru@[j]).name@
                        != self.selected_device_passthru@,
            decreases self.device_list_passthru@.len() - i,
        {
            if self.device_list_passthru[i].name == self.selected_device_passthru {
                return Ok(i);
            }
            i += 1;
        }
        Err(
            ApplicationError::DriverError(
                ComServerError {
                    err_code: DRIVER_ERROR_CODE,
                    err_desc: String::from_str("WTF. Located device is not valid??"),
                },
            ),
        )
    }

    /// Takes a message from the operator.
    pub fn update(&mut self, msg: LauncherMessage) -> (action: LaunchAction)
        ensures
            final(self).model() == old(self).model().after(msg),
            old(self).model().asks(msg, action),
    {
        match msg {
            LauncherMessage::SwitchAPI(api) => {
                self.api_selection = api;
                LaunchAction::Nothing
            },
            LauncherMessage::DeviceSelected(name) => {
                if self.api_selection == API::Passthru {
                    self.selected_device_passthru = name;
                } else {
                    self.selected_device_dpdu = name;
                }
                LaunchAction::Nothing
            },
            LauncherMessage::LaunchRequested => {
                if self.api_selection == API::Passthru {
                    match self.get_device_passthru() {
                        Ok(device) => LaunchAction::LoadDriver { device },
                        Err(error) => {
                            self.status_text = error.to_string();
                            LaunchAction::Nothing
                        },
                    }
                } else {
                    self.status_text = String::from_str(
                        "D-PDU API is unimplemented, check back in a future release!",
                    );
                    LaunchAction::NotImplemented
                }
            },
        }
    }

    /// Takes the news that a launch went well: the driver was loaded and the
    /// device opened. The status text of an earlier failure is cleared, so
    /// that no stale error stands beside a working device.
    pub fn launch_succeeded(&mut self)
        ensures
            final(self).model() == old(self).model().after_launch_success(),
            final(self).model() == (LauncherView {
                status_text: Seq::empty(),
                ..old(self).model()
            }),
    {
        self.status_text = String::new();
    }

    /// Takes the failure to load the driver of the device at `device`: the
    /// status text reports it with the driver's name and path. Nothing is
    /// retried. A place outside the list changes nothing.
    pub fn driver_load_failed(&mut self, device: usize, error: DriverLoadError)
        ensures
            final(self).model() == if device < old(self).model().devices.len() {
                LauncherView {
                    status_text: load_failure_text(error, old(self).model().devices[device as int]),
                    ..old(self).model()
                }
            } else {
                old(self).model()
            },
    {
        if device < self.device_list_passthru.len() {
            let failure = describe_load_failure(error, &self.device_list_passthru[device]);
            self.status_text = failure.to_string();
        }
    }

    /// Takes the failure to open the device once its driver was loaded.
    pub fn device_open_failed(&mut self, message: &str)
        ensures
            final(self).model() == (LauncherView { status_text: message@, ..old(self).model() }),
    {
        self.status_text = String::from_str(message);
    }

    /// Decides what to show.
    pub fn view(&self) -> (screen: LauncherScreen)
        ensures
            screen == self.model().screen(),
    {
        if self.api_selection == API::D_PDU {
            LauncherScreen::DpduUnimplemented
        } else if self.selected_device_passthru.as_str().unicode_len() == 0 {
            LauncherScreen::NoDevices
        } else {
            LauncherScreen::DevicePicker
        }
    }

    /// The selected API family.
    pub fn api_selection(&self) -> (api: API)
        ensures
            api == self.model().api,
    {
        self.api_selection
    }

    /// Number of devices in the list.
    pub fn device_count(&self) -> (n: usize)
        ensures
            n == self.model().devices.len(),
    {
        self.device_list_passthru.len()
    }

    /// The device at a place of the list, if the list is that long.
    pub fn device(&self, at: usize) -> (device: Option<&DriverDescriptor>)
        ensures
            match device {
                Some(found) => at < self.model().devices.len() && found@
                    == self.model().devices[at as int],
                None => at >= self.model().devices.len(),
            },
    {
        if at < self.device_list_passthru.len() {
            Some(&self.device_list_passthru[at])
        } else {
            None
        }
    }

    /// The names of the devices, in the order of the list.
    pub fn device_names(&self) -> (names: Vec<String>)
        ensures
            names@.map_values(|name: String| name@) == self.model().device_names(),
    {
        let mut names: Vec<String> = Vec::new();
        let mut i: usize = 0;
        while i < self.device_list_passthru.len()
            invariant
                i <= self.device_list_passthru@.len(),
                names@.len() == i,
                forall|j: int|
                    0 <= j < i ==> (#[trigger] names@[j])@ == self.device_list_passthru@[j].name@,
            decreases self.device_list_passthru@.len() - i,
        {
            names.push(self.device_list_passthru[i].name.clone());
            i += 1;
        }
        assert(names@.map_values(|name: String| name@) =~= self.model().device_names());
        names
    }

    /// The name of the selected device of the selected API family.
    pub fn selected_device(&self) -> (name: &str)
        ensures
            name@ == if self.model().api == API::Passthru {
                self.model().selected_passthru
            } else {
                self.model().selected_dpdu
            },
    {
        if self.api_selection == API::Passthru {
            self.selected_device_passthru.as_str()
        } else {
            self.selected_device_dpdu.as_str()
        }
    }

    /// What the last failed launch left to read.
    pub fn status_text(&self) -> (text: &str)
        ensures
            text@ == self.model().status_text,
    {
        self.status_text.as_str()
    }
}

/// A launch request that is refused on the spot leaves its reason to read,
/// whatever stood there before; one that finds its device leaves the text to
/// the outcome of the load.
pub proof fn lemma_refused_request_is_reported(launcher: LauncherView)
    ensures
        launcher.api != API::Passthru ==> launcher.after_launch_request().status_text
            == not_implemented_text() && launcher.launches(LaunchAction::NotImplemented),
        launcher.api == API::Passthru && !has_named(launcher.devices, launcher.selected_passthru)
            ==> launcher.after_launch_request().status_text == unknown_device_text()
            && launcher.launches(LaunchAction::Nothing),
        launcher.can_launch() ==> launcher.after_launch_request() == launcher,
        launcher.after_launch_request().api == launcher.api,
        launcher.after_launch_request().devices == launcher.devices,
        launcher.after_launch_request().selected_passthru == launcher.selected_passthru,
        launcher.after_launch_request().selected_dpdu == launcher.selected_dpdu,
{
}

/// A launch that went well leaves no failure to read, whatever was on
/// display before it and whatever the request itself put there; nothing else
/// of the launcher changes.
pub proof fn lemma_success_clears_status(launcher: LauncherView)
    ensures
        launcher.after_launch_success().status_text == Seq::<char>::empty(),
        launcher.after_launch_request().after_launch_success().status_text == Seq::<char>::empty(),
        launcher.after_launch_success() == (LauncherView {
            status_text: Seq::empty(),
            ..launcher
        }),
        launcher.after_launch_success().screen() == launcher.screen(),
{
}

} // verus!
