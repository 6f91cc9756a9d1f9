use scalex_dash::display::{Area, Color};
use scalex_dash::log_viewer::LogViewer;
#[test]
fn new_viewer_is_hidden() {
    let viewer = LogViewer::new();
    assert!(!viewer.visible);
    assert!(viewer.lines.is_empty());
    assert_eq!(viewer.scroll_offset, 0);
    assert!(viewer.auto_follow);
}

#[test]
fn log_viewer_default_is_same_as_new() {
    let viewer = LogViewer::default();
    assert!(!viewer.visible);
}

#[test]
fn open_sets_state() {
    let mut viewer = LogViewer::new();
    viewer.open("my-pod", "default", "nginx", "tower");
    assert!(viewer.visible);
    assert_eq!(viewer.pod_name, "my-pod");
    assert_eq!(viewer.namespace, "default");
    assert_eq!(viewer.container_name, "nginx");
    assert_eq!(viewer.cluster_name, "tower");
    assert!(viewer.auto_follow);
}

#[test]
fn log_viewer_close_clears_state() {
    let mut viewer = LogViewer::new();
    viewer.open("pod", "ns", "container", "cluster");
    viewer.push_line("test".to_string());
    viewer.close();
    assert!(!viewer.visible);
    assert!(viewer.lines.is_empty());
    assert_eq!(viewer.scroll_offset, 0);
}

#[test]
fn push_line_auto_follows() {
    let mut viewer = LogViewer::new();
    viewer.open("pod", "ns", "c", "cl");
    viewer.push_line("line 1".to_string());
    assert_eq!(viewer.scroll_offset, 0);
    viewer.push_line("line 2".to_string());
    assert_eq!(viewer.scroll_offset, 1);
    viewer.push_line("line 3".to_string());
    assert_eq!(viewer.scroll_offset, 2);
}

#[test]
fn scroll_up_disables_follow() {
    let mut viewer = LogViewer::new();
    viewer.open("pod", "ns", "c", "cl");
    for i in 0..10 {
        viewer.push_line(format!("line {}", i));
    }
    assert!(viewer.auto_follow);
    viewer.scroll_up();
    assert!(!viewer.auto_follow);
    assert_eq!(viewer.scroll_offset, 8); // was at 9, scrolled up 1
}

#[test]
fn scroll_down_clamps() {
    let mut viewer = LogViewer::new();
    viewer.open("pod", "ns", "c", "cl");
    viewer.push_line("only line".to_string());
    viewer.scroll_down();
    assert_eq!(viewer.scroll_offset, 0); // can't go past end
}

#[test]
fn jump_to_top() {
    let mut viewer = LogViewer::new();
    viewer.open("pod", "ns", "c", "cl");
    for i in 0..10 {
        viewer.push_line(format!("line {}", i));
    }
    viewer.jump_to_top();
    assert_eq!(viewer.scroll_offset, 0);
    assert!(!viewer.auto_follow);
}

#[test]
fn jump_to_bottom_enables_follow() {
    let mut viewer = LogViewer::new();
    viewer.open("pod", "ns", "c", "cl");
    for i in 0..10 {
        viewer.push_line(format!("line {}", i));
    }
    viewer.auto_follow = false;
    viewer.scroll_offset = 0;
    viewer.jump_to_bottom();
    assert_eq!(viewer.scroll_offset, 9);
    assert!(viewer.auto_follow);
}

#[test]
fn toggle_follow() {
    let mut viewer = LogViewer::new();
    viewer.open("pod", "ns", "c", "cl");
    assert!(viewer.auto_follow);
    viewer.toggle_follow();
    assert!(!viewer.auto_follow);
    viewer.toggle_follow();
    assert!(viewer.auto_follow);
}

#[test]
fn page_up_and_down() {
    let mut viewer = LogViewer::new();
    viewer.open("pod", "ns", "c", "cl");
    for i in 0..50 {
        viewer.push_line(format!("line {}", i));
    }
    // At bottom (49)
    viewer.page_up(20);
    assert_eq!(viewer.scroll_offset, 39); // 49 - 10 (half of 20)
    assert!(!viewer.auto_follow);

    viewer.page_down(20);
    assert_eq!(viewer.scroll_offset, 49); // 39 + 10
}

#[test]
fn the_log_is_laid_out() {
    let mut viewer = LogViewer::new();
    let screen = Area { x: 0, y: 0, width: 100, height: 20 };
    assert!(viewer.render(screen).is_none());
    viewer.open("pod", "ns", "web", "tower");
    let frame = viewer.render(screen).unwrap();
    assert_eq!(frame.title, " Logs: ns/pod (web)  [FOLLOW] ");
    assert_eq!(frame.lines[0].plain_text(), "  Waiting for logs...");
    assert!(frame.footer.plain_text().ends_with(" 0/0 "));
    for i in 0..30 {
        viewer.push_line(format!("line {}", i));
    }
    viewer.jump_to_top();
    viewer.lines[1] = "an error".to_string();
    viewer.lines[2] = "WARN: low".to_string();
    let frame = viewer.render(screen).unwrap();
    assert_eq!(frame.popup.height, 16);
    assert_eq!(frame.lines.len(), 13);
    assert_eq!(frame.lines[0].spans[0].style.fg, Some(Color::Fg));
    assert_eq!(frame.lines[1].spans[0].style.fg, Some(Color::BrightRed));
    assert_eq!(frame.lines[2].spans[0].style.fg, Some(Color::BrightYellow));
    assert!(frame.footer.plain_text().ends_with(" 13/30 "));
    assert!(!frame.title.contains("FOLLOW"));
}

#[test]
fn lines_that_come_do_not_disturb_reading() {
    let mut viewer = LogViewer::new();
    viewer.open("pod", "ns", "web", "tower");
    viewer.push_line("a".to_string());
    viewer.push_line("b".to_string());
    viewer.scroll_up();
    viewer.push_line("c".to_string());
    assert_eq!(viewer.scroll_offset, 0);
    viewer.toggle_follow();
    assert_eq!(viewer.scroll_offset, 2);
}
