use loudness_limiter::decimal::Decimal;
use loudness_limiter::window::{Job, MainWindow};

#[test]
fn new_window_defaults() {
    let w = MainWindow::new();
    assert_eq!(w.ffmpeg_path, "Empty for ffmpeg in PATH");
    assert_eq!(w.selected_path, None);
    assert_eq!(w.limitation, "-14");
    assert!(w.message.is_empty());
    assert!(w.file_node_type.is_empty());
}

#[test]
fn start_limit_defaults_and_rejects() {
    let mut w = MainWindow::new();
    w.limitation = String::new();
    assert_eq!(w.start_limit(), Some(Decimal { units: -14, scale: 0 }));
    assert_eq!(w.limitation, "-14");
    w.limitation = "-16.5".to_string();
    assert_eq!(w.start_limit(), Some(Decimal { units: -165, scale: 1 }));
    w.limitation = "quiet".to_string();
    assert_eq!(w.start_limit(), None);
    assert_eq!(w.limitation, "quiet");
}

#[test]
fn job_follows_node_type() {
    let mut w = MainWindow::new();
    assert_eq!(w.job(), None);
    w.selected_path = Some("/music/a.mp3".to_string());
    assert_eq!(w.job(), None);
    w.file_node_type = "file".to_string();
    assert_eq!(w.job(), Some(Job::File("/music/a.mp3".to_string())));
    w.file_node_type = "folder".to_string();
    assert_eq!(w.job(), Some(Job::Folder("/music/a.mp3".to_string())));
}
