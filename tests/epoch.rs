use bitcoin::blockdata::constants::COIN_VALUE;
use ord::epoch::{Epoch, Height, Sat};

#[test]
fn starting_sat() {
    assert_eq!(Epoch(0).starting_sat(), Sat(0));
}

#[test]
fn subsidy() {
    assert_eq!(Epoch(0).subsidy(), 8_000 * COIN_VALUE);
    assert_eq!(Epoch(1).subsidy(), 4_000 * COIN_VALUE);
    assert_eq!(Epoch(6).subsidy(), 125 * COIN_VALUE);
}

#[test]
fn starting_height() {
    assert_eq!(Epoch(0).starting_height(), Height(0));
    assert_eq!(Epoch(1).starting_height(), Height(100_000));
    assert_eq!(Epoch(2).starting_height(), Height(200_000));
}

#[test]
fn from_height() {
    assert_eq!(Epoch::from(Height(0)), Epoch(0));
    assert_eq!(Epoch::from(Height(100_000)), Epoch(1));
    assert_eq!(Epoch::from(Height(200_000)), Epoch(2));
}

#[test]
fn from_sat() {
    for (epoch, starting_sat) in Epoch::STARTING_SATS.iter().enumerate() {
        if epoch > 0 {
            assert_eq!(
                Epoch::from(Sat(Sat(*starting_sat).n() - 1)),
                Epoch((epoch - 1) as u32)
            );
        }
        assert_eq!(Epoch::from(Sat(*starting_sat)), Epoch(epoch as u32));
        assert_eq!(Epoch::from(Sat(*starting_sat + 1)), Epoch(epoch as u32));
    }
    assert_eq!(Epoch::from(Sat(0)), Epoch(0));
    assert_eq!(Epoch::from(Sat(1)), Epoch(0));
    assert_eq!(Epoch::from(Epoch(1).starting_sat()), Epoch(1));
    assert_eq!(Epoch::from(Sat(Epoch(1).starting_sat().n() + 1)), Epoch(1));
}

#[test]
fn eq() {
    assert_eq!(Epoch(0), 0);
    assert_eq!(Epoch(100), 100);
}

#[test]
fn subsidy_in_satoshis() {
    assert_eq!(Epoch(0).subsidy(), 800_000_000_000);
    assert_eq!(Epoch(5).subsidy(), 25_000_000_000);
    assert_eq!(Epoch(6).subsidy(), 12_500_000_000);
}

#[test]
fn subsidy_constant_past_last_entry() {
    assert_eq!(Epoch(7).subsidy(), Epoch(6).subsidy());
    assert_eq!(Epoch(100).subsidy(), Epoch(6).subsidy());
    assert_eq!(Epoch(u32::MAX).subsidy(), 125 * COIN_VALUE);
}

#[test]
fn subsidy_never_increases() {
    for e in 0..20u32 {
        assert!(Epoch(e).subsidy() >= Epoch(e + 1).subsidy());
    }
}

#[test]
fn starting_height_clamps_past_last_entry() {
    assert_eq!(Epoch(6).starting_height(), Height(600_000));
    assert_eq!(Epoch(7).starting_height(), Height(600_000));
    assert_eq!(Epoch(u32::MAX).starting_height(), Height(600_000));
}

#[test]
fn starting_sat_clamps_past_last_entry() {
    assert_eq!(Epoch(7).starting_sat(), Sat(56_000_000_000_000));
    assert_eq!(Epoch(8).starting_sat(), Sat(56_000_000_000_000));
    assert_eq!(Epoch(u32::MAX).starting_sat(), Sat(56_000_000_000_000));
}

#[test]
fn starts_strictly_increase() {
    for e in 0..6u32 {
        assert!(Epoch(e).starting_height().0 < Epoch(e + 1).starting_height().0);
    }
    for e in 0..7u32 {
        assert!(Epoch(e).starting_sat().n() < Epoch(e + 1).starting_sat().n());
    }
}

#[test]
fn height_boundaries_exact() {
    for e in 0..7u32 {
        let start = Epoch(e).starting_height();
        assert_eq!(Epoch::from(start), Epoch(e));
        if e > 0 {
            assert_eq!(Epoch::from(Height(start.0 - 1)), Epoch(e - 1));
        }
    }
}

#[test]
fn height_epochs_total_and_monotonic() {
    let heights = [0, 1, 99_999, 100_000, 350_000, 599_999, 600_000, 600_001, u32::MAX];
    let mut last = Epoch(0);
    for h in heights {
        let e = Epoch::from(Height(h));
        assert!(e.0 < 7);
        assert!(e.0 >= last.0);
        last = e;
    }
    assert_eq!(last, Epoch(6));
}

#[test]
fn sat_epochs_total_and_monotonic() {
    let sats = [0, 7_999_999_999_999, 8_000_000_000_000, 55_999_999_999_999, u64::MAX];
    let mut last = Epoch(0);
    for s in sats {
        let e = Epoch::from(Sat(s));
        assert!(e.0 < 8);
        assert!(e.0 >= last.0);
        last = e;
    }
    assert_eq!(last, Epoch(7));
}

#[test]
fn eq_with_number() {
    assert!(Epoch(3) == 3);
    assert!(Epoch(3) != 4);
    assert!(Epoch(3) != Epoch(4));
}
