use security_camera::clock::sample_clock;
use security_camera::config::{Camera, CliConfig, Config};

#[test]
fn default_camera() {
    let c = Camera::new("rtsp://example/stream");
    assert_eq!(c.name, "Security Camera");
    assert_eq!(c.source, "rtsp://example/stream");
    assert!(!c.timelapse);
    assert!(c.monitor);
    assert!(c.boundary.is_none());
    assert_eq!(c.trigger_frames, 1);
    assert_eq!(c.trigger_distance_milli, 0);
}

#[test]
fn config_holds_cameras() {
    let cfg = Config { cameras: vec![Camera::new("a"), Camera::new("b")] };
    assert_eq!(cfg.cameras.len(), 2);
    assert_eq!(cfg.cameras[1].source, "b");
}

#[test]
fn cli_config_fields() {
    let cli = CliConfig {
        arg_video_source: "cam0".to_string(),
        flag_monitor: true,
        flag_timelapse: false,
        flag_polygon: None,
        flag_config: Some("cameras.json".to_string()),
    };
    assert!(cli.flag_monitor);
    assert_eq!(cli.flag_config.as_deref(), Some("cameras.json"));
}

#[test]
fn clock_sample_is_well_formed() {
    let c = sample_clock();
    assert!(c.hour < 24);
    assert!(c.minute < 60);
    assert!(c.second < 60);
    assert_eq!(c.stamp.len(), 15);
}
