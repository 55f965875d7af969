use std::cell::RefCell;

use surf_pool::first_claim;

#[test]
fn the_first_probe_that_yields_wins() {
    let claim = first_claim(5, |i| if i >= 2 { Some(i * 10) } else { None });
    assert_eq!(claim, Some((2, 20)));
}

#[test]
fn the_scan_probes_in_order_and_stops_at_the_first_claim() {
    let probed = RefCell::new(Vec::new());
    let claim = first_claim(6, |i| {
        probed.borrow_mut().push(i);
        if i == 3 {
            Some("free")
        } else {
            None
        }
    });
    assert_eq!(claim, Some((3, "free")));
    assert_eq!(*probed.borrow(), vec![0, 1, 2, 3]);
}

#[test]
fn a_scan_without_a_claim_has_probed_every_position() {
    let probed = RefCell::new(Vec::new());
    let claim: Option<(usize, u8)> = first_claim(4, |i| {
        probed.borrow_mut().push(i);
        None
    });
    assert_eq!(claim, None);
    assert_eq!(*probed.borrow(), vec![0, 1, 2, 3]);
}

#[test]
fn a_scan_of_no_positions_probes_nothing() {
    let probed = RefCell::new(0usize);
    let claim: Option<(usize, u8)> = first_claim(0, |_| {
        *probed.borrow_mut() += 1;
        Some(1)
    });
    assert_eq!(claim, None);
    assert_eq!(*probed.borrow(), 0);
}

#[test]
fn the_first_position_is_claimed_when_it_yields() {
    let claim = first_claim(1, |i| Some(i));
    assert_eq!(claim, Some((0, 0)));
}
