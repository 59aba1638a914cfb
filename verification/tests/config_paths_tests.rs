use sup_linux::config::{
    Config, CameraConfig, ModelConfig, AuthConfig, DetectorConfig, RecognizerConfig, StorageConfig,
    PerformanceConfig, EnrollmentConfig, default_warmup_delay, default_k_required,
    default_n_attempts, default_buffer_size, default_true, default_lost_face_timeout,
    default_optimization_level, default_enrollment_quality, default_num_captures,
    default_capture_interval, default_true_option,
};
use sup_linux::paths::{
    system_user_data_dir, system_enrollment_dir, system_config_file, system_models_dir, DevMode,
    Paths, RunMode,
};
use sup_linux::client::ServiceClient;

fn good_config() -> Config {
    Config {
        camera: CameraConfig {
            device_index: 0,
            width: 640,
            height: 480,
            warmup_frames: 3,
            warmup_delay_ms: default_warmup_delay(),
        },
        models: ModelConfig {
            detector_path: "detector.onnx".to_string(),
            recognizer_path: "recognizer.onnx".to_string(),
        },
        auth: AuthConfig {
            similarity_threshold_bits: 0.6f32.to_bits(),
            timeout_seconds: 10,
            detection_confidence_bits: 0.5f32.to_bits(),
            k_required_matches: default_k_required(),
            n_total_attempts: default_n_attempts(),
            embedding_buffer_size: default_buffer_size(),
            use_embedding_fusion: default_true(),
            lost_face_timeout: default_lost_face_timeout(),
        },
        detector: DetectorConfig {
            input_width: 640,
            input_height: 640,
            normalization_mean_bits: 0.0f32.to_bits(),
            normalization_std_bits: 255.0f32.to_bits(),
        },
        recognizer: RecognizerConfig {
            input_size: 112,
            normalization_value_bits: 127.5f32.to_bits(),
        },
        storage: StorageConfig { enrollment_images_dir: "enrollment".to_string() },
        performance: PerformanceConfig {
            enable_quantization: default_true(),
            optimization_level: default_optimization_level(),
        },
        enrollment: EnrollmentConfig {
            store_averaged_embedding: default_true(),
            capture_quality_metrics: default_true(),
            min_enrollment_quality_bits: default_enrollment_quality(),
            num_captures: default_num_captures(),
            capture_interval_ms: default_capture_interval(),
            enable_ascii_preview: default_true_option(),
            ascii_width: None,
            ascii_height: None,
        },
    }
}

#[test]
fn defaults_match_the_documented_values() {
    assert_eq!(default_warmup_delay(), 50);
    assert_eq!(default_k_required(), 2);
    assert_eq!(default_n_attempts(), 3);
    assert_eq!(default_buffer_size(), 3);
    assert!(default_true());
    assert_eq!(default_lost_face_timeout(), 3);
    assert_eq!(default_optimization_level(), 3);
    assert_eq!(f32::from_bits(default_enrollment_quality()), 0.7);
    assert_eq!(default_num_captures(), Some(5));
    assert_eq!(default_capture_interval(), Some(2000));
    assert_eq!(default_true_option(), Some(true));
}

#[test]
fn valid_config_passes() {
    assert!(good_config().validate().is_ok());
}

#[test]
fn camera_bounds_are_checked() {
    let mut c = good_config();
    c.camera.width = 0;
    assert!(c.validate().is_err());
    let mut c = good_config();
    c.camera.height = 4097;
    assert!(c.validate().is_err());
}

#[test]
fn threshold_range_is_checked_on_the_bits() {
    let mut c = good_config();
    c.auth.similarity_threshold_bits = 1.5f32.to_bits();
    assert!(c.validate().is_err());
    let mut c = good_config();
    c.auth.similarity_threshold_bits = (-0.1f32).to_bits();
    assert!(c.validate().is_err());
    let mut c = good_config();
    c.auth.similarity_threshold_bits = 1.0f32.to_bits();
    assert!(c.validate().is_ok());
    let mut c = good_config();
    c.auth.similarity_threshold_bits = 0.0f32.to_bits();
    assert!(c.validate().is_ok());
    let mut c = good_config();
    c.auth.similarity_threshold_bits = (-0.0f32).to_bits();
    assert!(c.validate().is_ok());
    let mut c = good_config();
    c.auth.detection_confidence_bits = f32::NAN.to_bits();
    assert!(c.validate().is_err());
}

#[test]
fn timeout_and_model_bounds_are_checked() {
    let mut c = good_config();
    c.auth.timeout_seconds = 0;
    assert!(c.validate().is_err());
    let mut c = good_config();
    c.auth.timeout_seconds = 61;
    assert!(c.validate().is_err());
    let mut c = good_config();
    c.detector.input_width = 0;
    assert!(c.validate().is_err());
    let mut c = good_config();
    c.recognizer.input_size = 1025;
    assert!(c.validate().is_err());
}

#[test]
fn system_paths_are_fixed() {
    assert_eq!(system_user_data_dir(), "/var/lib/suplinux/users");
    assert_eq!(system_enrollment_dir(), "/var/lib/suplinux/enrollment");
    assert_eq!(system_config_file(), "/etc/suplinux/face-auth.toml");
    assert_eq!(system_models_dir(), "/usr/share/suplinux/models");
}

#[test]
fn dev_mode_directories() {
    let d = DevMode::new(true);
    assert!(d.is_enabled());
    assert_eq!(d.data_dir(), "./dev_data/users");
    assert_eq!(d.enrollment_images_dir(), "./dev_data/enrollment");
    assert_eq!(d.captures_dir(), "./dev_data/captures");
    assert_eq!(d.logs_dir(), "./dev_data/logs");
    assert_eq!(d.config_dir(), "./dev_data/config");
    assert_eq!(d.debug_dir(), "./dev_data/debug");
    assert_eq!(d.get_capture_path("shot", "20240101_120000"), "./dev_data/captures/shot_20240101_120000.jpg");
    let prod = DevMode::new(false);
    assert!(!prod.is_enabled());
    assert_eq!(prod.get_capture_path("shot", "x"), "shot.jpg");
    assert_eq!(prod.get_debug_path("shot", "x"), "shot_debug.jpg");
}

#[test]
fn run_mode_selection() {
    assert!(Paths::choose_run_mode(true, true, false, None).is_err());
    match Paths::choose_run_mode(true, false, false, None) {
        Ok(RunMode::Development(b)) => assert_eq!(b, "./dev_data"),
        other => panic!("unexpected mode: {:?}", other.is_ok()),
    }
    assert!(matches!(Paths::choose_run_mode(false, true, false, None), Ok(RunMode::System)));
    assert!(matches!(
        Paths::choose_run_mode(false, false, true, None),
        Ok(RunMode::Development(_))
    ));
    match Paths::choose_run_mode(false, false, false, Some("/home/eve".to_string())) {
        Ok(RunMode::User(h)) => assert_eq!(h, "/home/eve"),
        _ => panic!("expected user mode"),
    }
    assert!(Paths::choose_run_mode(false, false, false, None).is_err());
}

#[test]
fn mode_paths() {
    let dev = Paths::from_mode(RunMode::Development("./dev_data".to_string()));
    assert!(dev.is_development());
    assert!(!dev.is_system());
    assert_eq!(dev.user_data_dir(), "./dev_data/users");
    assert_eq!(dev.enrollment_dir(), "./dev_data/enrollment");
    assert_eq!(dev.models_dir(), "./models");
    assert_eq!(dev.config_file(false), "./dev_data/configs/face-auth.toml");
    assert_eq!(dev.get_capture_path("a", "b"), "./dev_data/captures/a_b.jpg");
    assert_eq!(dev.get_debug_path("a", "b"), "./dev_data/debug/a_b.jpg");

    let sys = Paths::from_mode(RunMode::System);
    assert!(sys.is_system());
    assert_eq!(sys.user_data_dir(), "/var/lib/linuxsup/users");
    assert_eq!(sys.config_file(true), "/etc/linuxsup/face-auth.toml");
    assert_eq!(sys.models_dir(), "/usr/share/linuxsup/models");
    assert_eq!(sys.get_capture_path("a", "b"), "/tmp/linuxsup_a_b.jpg");

    let user = Paths::from_mode(RunMode::User("/home/eve".to_string()));
    assert_eq!(user.user_data_dir(), "/home/eve/.local/share/linuxsup/users");
    assert_eq!(user.enrollment_dir(), "/home/eve/.local/share/linuxsup/enrollment");
    assert_eq!(user.config_file(true), "/home/eve/.config/linuxsup/face-auth.toml");
    assert_eq!(user.config_file(false), "/etc/linuxsup/face-auth.toml");
}

#[test]
fn client_socket_paths() {
    let dev = ServiceClient::new(true);
    assert_eq!(dev.socket_path, "/tmp/suplinux.sock");
    assert!(dev.dev_mode);
    let prod = ServiceClient::new(false);
    assert_eq!(prod.socket_path, "/run/suplinux/service.sock");
    assert!(!prod.dev_mode);
}
