use can_tracer::launcher::{
    describe_load_failure, ApplicationError, ComServerError, DriverDescriptor, DriverLoadError,
    LaunchAction, Launcher, LauncherMessage, LauncherScreen, API,
};

fn driver(name: &str, path: &str) -> DriverDescriptor {
    DriverDescriptor { name: String::from(name), library_path: String::from(path) }
}

fn two_devices() -> Launcher {
    Launcher::new(vec![driver("Alpha", "/opt/alpha.so"), driver("Beta", "/opt/beta.so")])
}

#[test]
fn launcher_opens_on_the_first_device() {
    let launcher = two_devices();
    assert_eq!(launcher.api_selection(), API::Passthru);
    assert_eq!(launcher.selected_device(), "Alpha");
    assert_eq!(launcher.device_names(), vec![String::from("Alpha"), String::from("Beta")]);
    assert_eq!(launcher.device_count(), 2);
    assert_eq!(launcher.status_text(), "");
    assert_eq!(launcher.view(), LauncherScreen::DevicePicker);
}

#[test]
fn launcher_without_devices_says_so() {
    let launcher = Launcher::new(Vec::new());
    assert_eq!(launcher.selected_device(), "");
    assert_eq!(launcher.view(), LauncherScreen::NoDevices);
    assert!(launcher.device_names().is_empty());
    assert!(launcher.device(0).is_none());
}

#[test]
fn switching_api_changes_the_screen() {
    let mut launcher = two_devices();
    assert_eq!(launcher.update(LauncherMessage::SwitchAPI(API::D_PDU)), LaunchAction::Nothing);
    assert_eq!(launcher.api_selection(), API::D_PDU);
    assert_eq!(launcher.view(), LauncherScreen::DpduUnimplemented);
    assert_eq!(launcher.update(LauncherMessage::SwitchAPI(API::Passthru)), LaunchAction::Nothing);
    assert_eq!(launcher.view(), LauncherScreen::DevicePicker);
    assert_eq!(launcher.selected_device(), "Alpha");
}

#[test]
fn device_selection_goes_to_the_api_on_show() {
    let mut launcher = two_devices();
    launcher.update(LauncherMessage::DeviceSelected(String::from("Beta")));
    assert_eq!(launcher.selected_device(), "Beta");
    launcher.update(LauncherMessage::SwitchAPI(API::D_PDU));
    assert_eq!(launcher.selected_device(), "");
    launcher.update(LauncherMessage::DeviceSelected(String::from("Gamma")));
    assert_eq!(launcher.selected_device(), "Gamma");
    launcher.update(LauncherMessage::SwitchAPI(API::Passthru));
    assert_eq!(launcher.selected_device(), "Beta");
}

#[test]
fn launch_request_asks_for_the_selected_driver() {
    let mut launcher = two_devices();
    assert_eq!(
        launcher.update(LauncherMessage::LaunchRequested),
        LaunchAction::LoadDriver { device: 0 }
    );
    launcher.update(LauncherMessage::DeviceSelected(String::from("Beta")));
    assert_eq!(
        launcher.update(LauncherMessage::LaunchRequested),
        LaunchAction::LoadDriver { device: 1 }
    );
    assert_eq!(launcher.get_device_passthru().ok(), Some(1));
    assert_eq!(launcher.device(1).map(|d| d.library_path.as_str()), Some("/opt/beta.so"));
    assert_eq!(launcher.status_text(), "");
}

#[test]
fn launch_request_takes_the_first_of_two_devices_with_one_name() {
    let mut launcher =
        Launcher::new(vec![driver("A", "/1"), driver("B", "/2"), driver("B", "/3")]);
    launcher.update(LauncherMessage::DeviceSelected(String::from("B")));
    assert_eq!(
        launcher.update(LauncherMessage::LaunchRequested),
        LaunchAction::LoadDriver { device: 1 }
    );
}

#[test]
fn launch_request_for_an_unknown_device_reports_it() {
    let mut launcher = two_devices();
    launcher.update(LauncherMessage::DeviceSelected(String::from("Gamma")));
    assert_eq!(launcher.update(LauncherMessage::LaunchRequested), LaunchAction::Nothing);
    assert_eq!(launcher.status_text(), "WTF. Located device is not valid??");
    match launcher.get_device_passthru() {
        Err(ApplicationError::DriverError(error)) => {
            assert_eq!(error.err_code, 99);
            assert_eq!(error.err_desc, "WTF. Located device is not valid??");
        },
        Ok(at) => panic!("found a device at {}", at),
    }
}

#[test]
fn launch_request_for_dpdu_is_not_implemented() {
    let mut launcher = two_devices();
    launcher.update(LauncherMessage::SwitchAPI(API::D_PDU));
    assert_eq!(launcher.status_text(), "");
    assert_eq!(launcher.update(LauncherMessage::LaunchRequested), LaunchAction::NotImplemented);
    assert_eq!(
        launcher.status_text(),
        "D-PDU API is unimplemented, check back in a future release!"
    );
    assert_eq!(launcher.api_selection(), API::D_PDU);
    assert_eq!(launcher.view(), LauncherScreen::DpduUnimplemented);
}

#[test]
fn launch_request_for_dpdu_overwrites_an_earlier_failure() {
    let mut launcher = two_devices();
    launcher.driver_load_failed(0, DriverLoadError::LibraryNotFound);
    launcher.update(LauncherMessage::SwitchAPI(API::D_PDU));
    assert_eq!(launcher.status_text(), "Cannot locate driver Alpha at /opt/alpha.so");
    assert_eq!(launcher.update(LauncherMessage::LaunchRequested), LaunchAction::NotImplemented);
    assert_eq!(
        launcher.status_text(),
        "D-PDU API is unimplemented, check back in a future release!"
    );
    launcher.update(LauncherMessage::SwitchAPI(API::Passthru));
    assert_eq!(
        launcher.update(LauncherMessage::LaunchRequested),
        LaunchAction::LoadDriver { device: 0 }
    );
    launcher.launch_succeeded();
    assert_eq!(launcher.status_text(), "");
}

#[test]
fn load_failure_is_reported_with_name_and_path() {
    let mut launcher = two_devices();
    launcher.driver_load_failed(1, DriverLoadError::LibraryNotFound);
    assert_eq!(launcher.status_text(), "Cannot locate driver Beta at /opt/beta.so");
    launcher.driver_load_failed(0, DriverLoadError::SymbolMissing);
    assert_eq!(launcher.status_text(), "Driver Alpha at /opt/alpha.so lacks a required function");
    launcher.driver_load_failed(0, DriverLoadError::IncompatibleVersion);
    assert_eq!(launcher.status_text(), "Driver Alpha at /opt/alpha.so has an incompatible version");
    launcher.driver_load_failed(2, DriverLoadError::LibraryNotFound);
    assert_eq!(launcher.status_text(), "Driver Alpha at /opt/alpha.so has an incompatible version");
}

#[test]
fn load_failure_has_the_driver_error_code() {
    let failure = describe_load_failure(DriverLoadError::LibraryNotFound, &driver("X", "/x"));
    match &failure {
        ApplicationError::DriverError(error) => assert_eq!(error.err_code, 99),
    }
    assert_eq!(failure.to_string(), "Cannot locate driver X at /x");
}

#[test]
fn device_open_failure_is_shown_as_given() {
    let mut launcher = two_devices();
    launcher.device_open_failed("ERR_DEVICE_NOT_CONNECTED");
    assert_eq!(launcher.status_text(), "ERR_DEVICE_NOT_CONNECTED");
    assert_eq!(launcher.view(), LauncherScreen::DevicePicker);
}

#[test]
fn application_error_reads_as_its_description() {
    let error = ApplicationError::DriverError(ComServerError {
        err_code: 7,
        err_desc: String::from("no such device"),
    });
    assert_eq!(error.to_string(), "no such device");
}

#[test]
fn successful_launch_clears_an_earlier_failure() {
    let mut launcher = two_devices();
    launcher.driver_load_failed(0, DriverLoadError::LibraryNotFound);
    assert_eq!(launcher.status_text(), "Cannot locate driver Alpha at /opt/alpha.so");
    assert_eq!(
        launcher.update(LauncherMessage::LaunchRequested),
        LaunchAction::LoadDriver { device: 0 }
    );
    assert_eq!(launcher.status_text(), "Cannot locate driver Alpha at /opt/alpha.so");
    launcher.launch_succeeded();
    assert_eq!(launcher.status_text(), "");
    assert_eq!(launcher.selected_device(), "Alpha");
    assert_eq!(launcher.api_selection(), API::Passthru);
    assert_eq!(launcher.device_count(), 2);
    assert_eq!(launcher.view(), LauncherScreen::DevicePicker);
}

#[test]
fn successful_launch_clears_any_status_text() {
    let mut launcher = two_devices();
    launcher.update(LauncherMessage::DeviceSelected(String::from("Gamma")));
    launcher.update(LauncherMessage::LaunchRequested);
    assert_eq!(launcher.status_text(), "WTF. Located device is not valid??");
    launcher.launch_succeeded();
    assert_eq!(launcher.status_text(), "");
    launcher.device_open_failed("ERR_FAILED");
    launcher.launch_succeeded();
    assert_eq!(launcher.status_text(), "");
    launcher.launch_succeeded();
    assert_eq!(launcher.status_text(), "");
}

#[test]
fn failure_after_a_success_is_shown_again() {
    let mut launcher = two_devices();
    launcher.launch_succeeded();
    launcher.driver_load_failed(1, DriverLoadError::SymbolMissing);
    assert_eq!(launcher.status_text(), "Driver Beta at /opt/beta.so lacks a required function");
}

#[test]
fn launcher_clone_keeps_everything() {
    let mut launcher = two_devices();
    launcher.update(LauncherMessage::DeviceSelected(String::from("Beta")));
    launcher.device_open_failed("ERR_FAILED");
    let copy = launcher.clone();
    assert_eq!(copy.selected_device(), "Beta");
    assert_eq!(copy.status_text(), "ERR_FAILED");
    assert_eq!(copy.api_selection(), API::Passthru);
    assert_eq!(copy.device_names(), launcher.device_names());
    assert_eq!(copy.device(1).map(|d| d.library_path.clone()), Some(String::from("/opt/beta.so")));
    launcher.launch_succeeded();
    assert_eq!(copy.status_text(), "ERR_FAILED");
}

#[test]
fn message_and_descriptor_clones_are_equal_in_content() {
    let message = LauncherMessage::DeviceSelected(String::from("Beta"));
    match message.clone() {
        LauncherMessage::DeviceSelected(name) => assert_eq!(name, "Beta"),
        other => panic!("unexpected clone {:?}", other),
    }
    let descriptor = driver("A", "/a");
    let copy = descriptor.clone();
    assert_eq!(copy.name, "A");
    assert_eq!(copy.library_path, "/a");
}
