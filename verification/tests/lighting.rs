use mclone::light::{BlockId, Lighting};

#[test]
fn block_id_packs_scope_and_id() {
    let b = BlockId::new(3, 7);
    assert_eq!(b.scope(), 3);
    assert_eq!(b.id(), 7);
    let b = BlockId::new(0xffff, 0xffff);
    assert_eq!(b.scope(), 0xffff);
    assert_eq!(b.id(), 0xffff);
    let air = BlockId::new(0, 0);
    assert_eq!(air.scope(), 0);
    assert_eq!(air.id(), 0);
}

#[test]
fn lighting_packs_four_channels() {
    let l = Lighting::new(15, 1, 2, 3);
    assert_eq!(l.get_sky(), 15);
    assert_eq!(l.get_red(), 1);
    assert_eq!(l.get_green(), 2);
    assert_eq!(l.get_blue(), 3);
}

#[test]
fn lighting_setters_leave_other_channels() {
    let mut l = Lighting::new(1, 2, 3, 4);
    l.set_sky(9);
    assert_eq!(l.get_sky(), 9);
    assert_eq!(l.get_red(), 2);
    l.set_red(8);
    assert_eq!(l.get_red(), 8);
    assert_eq!(l.get_sky(), 9);
    l.set_blue(7);
    assert_eq!(l.get_blue(), 7);
    assert_eq!(l.get_green(), 3);
    l.set_green(6);
    assert_eq!(l.get_green(), 6);
    assert_eq!(l.get_blue(), 7);
    assert_eq!(l.get_sky(), 9);
    assert_eq!(l.get_red(), 8);
}
