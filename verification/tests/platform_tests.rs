use bootplat::platform::{ConsoleOut, PlatformManager, VideoManager};

struct FakeVideo {
    modes: Vec<(u32, u32)>,
}

impl VideoManager for FakeVideo {
    fn mode_count(&self) -> usize {
        self.modes.len()
    }

    fn mode_resolution(&self, mode: usize) -> (u32, u32) {
        self.modes[mode]
    }
}

struct FakeConsole {
    width: usize,
}

impl ConsoleOut for FakeConsole {
    fn write_text(&self, _text: &str) {}

    fn columns(&self) -> usize {
        self.width
    }
}

#[test]
fn manager_returns_identical_references() {
    let video = FakeVideo { modes: vec![(640, 480), (1024, 768)] };
    let console = FakeConsole { width: 80 };

    let mgr = PlatformManager::new(&video, &console);
    assert!(std::ptr::eq(mgr.video(), &video));
    assert!(std::ptr::eq(mgr.console(), &console));
    assert!(std::ptr::eq(mgr.video_manager, &video));
    assert!(std::ptr::eq(mgr.console_manager, &console));
}

#[test]
fn manager_accessors_reach_the_backends() {
    let video = FakeVideo { modes: vec![(640, 480), (1024, 768), (1920, 1080)] };
    let console = FakeConsole { width: 132 };

    let mgr = PlatformManager::new(&video, &console);
    assert_eq!(mgr.video().mode_count(), 3);
    assert_eq!(mgr.video().mode_resolution(2), (1920, 1080));
    assert_eq!(mgr.console().columns(), 132);
    mgr.console().write_text("hello");
}
