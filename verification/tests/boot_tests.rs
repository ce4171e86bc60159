use bootplat::boot::{BootPhase, BootSequencer, BootStep, Status};
use bootplat::revision::Revision;

#[test]
fn success_path_returns_status_once() {
    let mut seq = BootSequencer::new();
    assert_eq!(seq.current_phase(), BootPhase::Start);

    let step = seq.validate(Revision::new(2, 30));
    assert_eq!(step, BootStep::RunLoader { warn_degraded: false });
    assert_eq!(seq.current_phase(), BootPhase::Validated { degraded: false });

    seq.begin_loader();
    assert_eq!(seq.current_phase(), BootPhase::LoaderInvoked);

    let status = seq.complete();
    assert_eq!(status, Status::Success);
    // terminal: `complete` admits only `LoaderInvoked`, so the success
    // status of this boot attempt cannot be produced again
    assert_eq!(seq.current_phase(), BootPhase::Done);
}

#[test]
fn fatal_path_halts_before_loader() {
    for minor in [0u16, 29, 30, 77, 0xFFFF] {
        let mut seq = BootSequencer::new();
        let step = seq.validate(Revision::new(1, minor));
        assert_eq!(step, BootStep::Halt);
        // `Halted` is terminal: neither `begin_loader` nor `complete`
        // admits it, so loader-main is never invoked and no status is
        // ever returned
        assert_eq!(seq.current_phase(), BootPhase::Halted);
    }
}

#[test]
fn degraded_path_warns_and_proceeds() {
    let mut seq = BootSequencer::new();
    let step = seq.validate(Revision::new(2, 0));
    assert_eq!(step, BootStep::RunLoader { warn_degraded: true });
    assert_eq!(seq.current_phase(), BootPhase::Validated { degraded: true });

    seq.begin_loader();
    let status = seq.complete();
    assert_eq!(status, Status::Success);
}

#[test]
fn compatible_path_emits_no_warning() {
    let mut seq = BootSequencer::new();
    let step = seq.validate(Revision::new(3, 45));
    match step {
        BootStep::RunLoader { warn_degraded } => assert!(!warn_degraded),
        BootStep::Halt => panic!("compatible revision must proceed"),
    }
}
