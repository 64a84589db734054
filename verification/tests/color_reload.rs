use wgpu_app::color::{hue_sector_terms, HsvTerm};
use wgpu_app::color::HsvTerm::{P, Q, T, V};
use wgpu_app::reload::replace_on_success;

#[test]
fn each_sector_has_its_row() {
    assert_eq!(hue_sector_terms(0), (V, T, P));
    assert_eq!(hue_sector_terms(1), (Q, V, P));
    assert_eq!(hue_sector_terms(2), (P, V, T));
    assert_eq!(hue_sector_terms(3), (P, Q, V));
    assert_eq!(hue_sector_terms(4), (T, P, V));
    assert_eq!(hue_sector_terms(5), (V, P, Q));
}

#[test]
fn out_of_range_sectors_take_the_last_row() {
    assert_eq!(hue_sector_terms(6), (V, P, Q));
    assert_eq!(hue_sector_terms(-1), (V, P, Q));
    assert_eq!(hue_sector_terms(i32::MAX), (V, P, Q));
}

#[test]
fn every_row_holds_v_and_p_once() {
    for s in -2..9 {
        let (r, g, b) = hue_sector_terms(s);
        let row = [r, g, b];
        assert_eq!(row.iter().filter(|&&t| t == HsvTerm::V).count(), 1);
        assert_eq!(row.iter().filter(|&&t| t == HsvTerm::P).count(), 1);
        let third = if s == 0 || s == 2 || s == 4 { HsvTerm::T } else { HsvTerm::Q };
        assert_eq!(row.iter().filter(|&&t| t == third).count(), 1);
    }
}

#[test]
fn a_successful_reload_replaces_the_value() {
    let mut slot = String::from("old shader");
    let r: Result<(), &str> = replace_on_success(&mut slot, Ok(String::from("new shader")));
    assert_eq!(r, Ok(()));
    assert_eq!(slot, "new shader");
}

#[test]
fn a_failed_reload_keeps_the_old_value() {
    let mut slot = 41u32;
    let r = replace_on_success(&mut slot, Err("file missing"));
    assert_eq!(r, Err("file missing"));
    assert_eq!(slot, 41);
}
