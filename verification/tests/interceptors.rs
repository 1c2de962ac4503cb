use nvmf_subsys::status::{
    nexus_cpl_error_cb, replica_cpl_error_cb, CplStatus, SCT_GENERIC, SCT_VENDOR_SPECIFIC,
    SC_CAPACITY_EXCEEDED, SC_RESERVATION_CONFLICT, SC_VENDOR_NO_SPACE,
};

fn status(sct: u8, sc: u8, crd: u8) -> CplStatus {
    CplStatus { p: false, sc, sct, crd, m: false, dnr: false }
}

#[test]
fn nexus_leaves_crd_zero_untouched() {
    let mut s = status(SCT_GENERIC, SC_RESERVATION_CONFLICT, 0);
    let before = s;
    nexus_cpl_error_cb(&mut s);
    assert_eq!(s, before);
}

#[test]
fn nexus_moves_reservation_conflict_to_crd_two() {
    let mut s = status(SCT_GENERIC, SC_RESERVATION_CONFLICT, 1);
    nexus_cpl_error_cb(&mut s);
    assert_eq!(s.crd, 2);
    assert_eq!(s.sct, SCT_GENERIC);
    assert_eq!(s.sc, SC_RESERVATION_CONFLICT);
}

#[test]
fn nexus_moves_capacity_exceeded_to_crd_two() {
    let mut s = status(SCT_GENERIC, SC_CAPACITY_EXCEEDED, 3);
    nexus_cpl_error_cb(&mut s);
    assert_eq!(s.crd, 2);
}

#[test]
fn nexus_leaves_other_statuses_alone() {
    let mut s = status(SCT_GENERIC, 0x02, 1);
    let before = s;
    nexus_cpl_error_cb(&mut s);
    assert_eq!(s, before);
}

#[test]
fn replica_moves_crd_one_to_three() {
    let mut s = status(SCT_GENERIC, 0x02, 1);
    replica_cpl_error_cb(&mut s);
    assert_eq!(s.crd, 3);
}

#[test]
fn replica_corrects_vendor_no_space() {
    let mut s = status(SCT_VENDOR_SPECIFIC, SC_VENDOR_NO_SPACE, 0);
    replica_cpl_error_cb(&mut s);
    assert_eq!(s.sct, SCT_GENERIC);
    assert_eq!(s.sc, SC_CAPACITY_EXCEEDED);
    assert_eq!(s.crd, 0);
}

#[test]
fn replica_corrects_no_space_and_retry_delay_together() {
    let mut s = status(SCT_VENDOR_SPECIFIC, SC_VENDOR_NO_SPACE, 1);
    replica_cpl_error_cb(&mut s);
    assert_eq!(s.sct, SCT_GENERIC);
    assert_eq!(s.sc, SC_CAPACITY_EXCEEDED);
    assert_eq!(s.crd, 3);
}

#[test]
fn replica_leaves_other_statuses_alone() {
    let mut s = status(SCT_GENERIC, 0x02, 2);
    let before = s;
    replica_cpl_error_cb(&mut s);
    assert_eq!(s, before);
}
