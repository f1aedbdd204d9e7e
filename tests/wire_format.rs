use rholive::gemini::{MediaResolution, ResponseModality};
use rholive::media::{get_default_monitor_source, AudioSource};
use rholive::wire::{ActivityMode, Outgoing, WireMessage};

#[test]
fn markers_are_bare_objects() {
    assert_eq!(WireMessage::ActivityStart.to_json(), "{\"activityStart\":{}}");
    assert_eq!(WireMessage::ActivityEnd.to_json(), "{\"activityEnd\":{}}");
}

#[test]
fn audio_payload_is_base64() {
    assert_eq!(
        WireMessage::Audio(vec![1, 2, 3]).to_json(),
        "{\"audio\":{\"data\":\"AQID\",\"mimeType\":\"audio/pcm;rate=16000\"}}"
    );
}

#[test]
fn video_payload_is_base64_with_padding() {
    assert_eq!(
        WireMessage::Video(vec![0xff, 0xd8]).to_json(),
        "{\"video\":{\"data\":\"/9g=\",\"mimeType\":\"image/jpeg\"}}"
    );
}

#[test]
fn setup_switches_mode() {
    assert_eq!(
        WireMessage::Setup(ActivityMode::StartOfActivityInterrupts).to_json(),
        "{\"setup\":{\"realtimeInputConfig\":{\"activityHandling\":\"START_OF_ACTIVITY_INTERRUPTS\"}}}"
    );
    assert_eq!(
        WireMessage::Setup(ActivityMode::NoInterruption).to_json(),
        "{\"setup\":{\"realtimeInputConfig\":{\"activityHandling\":\"NO_INTERRUPTION\"}}}"
    );
}

#[test]
fn outgoing_maps_to_wire() {
    let o = Outgoing::AudioChunk(vec![9, 8], 4);
    assert_eq!(o.turn_id(), 4);
    assert_eq!(o.into_wire().to_json(), WireMessage::Audio(vec![9, 8]).to_json());
    assert_eq!(Outgoing::ActivityEnd(2).into_wire().to_json(), "{\"activityEnd\":{}}");
}

#[test]
fn option_names() {
    assert_eq!(ResponseModality::Text.as_str(), "TEXT");
    assert_eq!(ResponseModality::Audio.as_str(), "AUDIO");
    assert_eq!(MediaResolution::Low.as_str(), "MEDIA_RESOLUTION_LOW");
    assert_eq!(MediaResolution::Medium.as_str(), "MEDIA_RESOLUTION_MEDIUM");
    assert_eq!(MediaResolution::High.as_str(), "MEDIA_RESOLUTION_HIGH");
    assert_eq!(get_default_monitor_source(), "@DEFAULT_MONITOR@");
    assert_eq!(AudioSource::default(), AudioSource::Both);
}
