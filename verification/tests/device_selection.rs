use tsubame::audio::{
    current_selection, meter_strategy_for, selection_label, AudioDeviceConnectionState,
    AudioDeviceInfo, AudioDeviceKind, AudioDeviceSelection, AudioDeviceState, AudioDeviceStatus,
    AudioError, AudioMeterStrategy, AudioMeterTarget, MeterEvent, MeterNext, MeterPath,
};

#[test]
fn audio_device_info_keeps_stable_id_and_display_name() {
    let device = AudioDeviceInfo {
        id: "device-123".to_owned(),
        name: "USB Microphone".to_owned(),
        kind: AudioDeviceKind::Input,
        is_default: false,
    };

    assert_eq!(device.id, "device-123");
    assert_eq!(device.name, "USB Microphone");
    assert_eq!(device.kind, AudioDeviceKind::Input);
}

#[test]
fn default_selection_is_explicit() {
    assert_eq!(
        AudioDeviceSelection::default(),
        AudioDeviceSelection::Default
    );
}

#[test]
fn input_and_output_selection_are_independent() {
    let state = AudioDeviceState {
        input: AudioDeviceSelection::DeviceId("mic".into()),
        output: AudioDeviceSelection::DeviceId("speaker".into()),
    };

    assert_ne!(state.input, state.output);
}

#[test]
fn connection_state_distinguishes_disconnect() {
    assert_ne!(
        AudioDeviceConnectionState::Connected,
        AudioDeviceConnectionState::Disconnected
    );
}

#[test]
fn microphone_meter_uses_active_capture_stream() {
    assert_eq!(
        meter_strategy_for(AudioMeterTarget::Microphone),
        AudioMeterStrategy::ActiveCapture,
    );
}

#[test]
fn desktop_meter_keeps_endpoint_peak_strategy() {
    assert_eq!(
        meter_strategy_for(AudioMeterTarget::Desktop),
        AudioMeterStrategy::EndpointPeak,
    );
}

#[test]
fn phase7_fix4_editor_audio_contract_is_48k_stereo_pcm16() {
    let sample_rate = 48_000_u32;
    let channels = 2_u16;
    let bits_per_sample = 16_u16;

    assert_eq!(sample_rate, 48_000);
    assert_eq!(channels, 2);
    assert_eq!(bits_per_sample, 16);
}

#[test]
fn phase9_2_1_audio_device_selector_copy_is_stable() {
    let labels = ["Windows既定", "音声デバイス更新"];
    assert!(labels.contains(&"Windows既定"));
    assert!(labels.contains(&"音声デバイス更新"));
}

fn device(id: &str, name: &str) -> AudioDeviceInfo {
    AudioDeviceInfo { id: id.to_owned(), name: name.to_owned(), kind: AudioDeviceKind::Output, is_default: false }
}

#[test]
fn selection_label_names_default_chosen_or_missing_device() {
    let devices = vec![device("a", "Speakers"), device("b", "Headset"), device("b", "Other")];
    assert_eq!(selection_label(&AudioDeviceSelection::Default, &devices), "Windows既定");
    assert_eq!(selection_label(&AudioDeviceSelection::DeviceId("b".into()), &devices), "Headset");
    assert_eq!(selection_label(&AudioDeviceSelection::DeviceId("z".into()), &devices), "切断されたデバイス");
}

#[test]
fn status_updates_touch_only_one_path() {
    let mut status = AudioDeviceStatus::default();
    assert_eq!(status.microphone, "マイク: 再接続中");
    assert_eq!(status.desktop_connection, AudioDeviceConnectionState::Reconnecting);
    status.set_status(MeterPath::Desktop, AudioDeviceConnectionState::Connected, "PC音声: Speakers".to_owned());
    assert_eq!(status.desktop, "PC音声: Speakers");
    assert_eq!(status.microphone_connection, AudioDeviceConnectionState::Reconnecting);
    status.mark_reconnecting(MeterPath::Desktop);
    assert_eq!(status.desktop, "PC音声: 再接続中");
    assert_eq!(status.desktop_connection, AudioDeviceConnectionState::Reconnecting);
}

#[test]
fn meter_paths_read_their_own_selection() {
    let state = AudioDeviceState {
        input: AudioDeviceSelection::DeviceId("mic".into()),
        output: AudioDeviceSelection::Default,
    };
    assert_eq!(current_selection(&state, MeterPath::Microphone), AudioDeviceSelection::DeviceId("mic".into()));
    assert_eq!(current_selection(&state, MeterPath::Desktop), AudioDeviceSelection::Default);
    assert_eq!(AudioError::Backend("x".into()).message(), "WASAPIエラー: x");
}

#[test]
fn meter_loop_reports_each_step_on_its_own_path() {
    let mut status = AudioDeviceStatus::default();
    assert_eq!(
        status.record_meter_event(MeterPath::Desktop, MeterEvent::Failed("E_FAIL".to_owned())),
        MeterNext::Retry
    );
    assert_eq!(status.desktop, "PC音声: 切断 (E_FAIL)");
    assert_eq!(status.desktop_connection, AudioDeviceConnectionState::Disconnected);
    assert_eq!(status.microphone, "マイク: 再接続中");

    assert_eq!(status.record_meter_event(MeterPath::Desktop, MeterEvent::Reconnecting), MeterNext::Open);
    assert_eq!(status.desktop, "PC音声: 再接続中");
    assert_eq!(
        status.record_meter_event(MeterPath::Microphone, MeterEvent::Connected("USB Mic".to_owned())),
        MeterNext::Measure
    );
    assert_eq!(status.microphone, "マイク: USB Mic");
    assert_eq!(status.microphone_connection, AudioDeviceConnectionState::Connected);
    assert_eq!(status.record_meter_event(MeterPath::Microphone, MeterEvent::ComInitFailed), MeterNext::Stop);
    assert_eq!(status.microphone, "マイク: COM初期化失敗");
}
